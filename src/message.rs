use vstd::prelude::*;

verus! {

/// A message pushed by the registry to one client.
pub struct ServerMsg {
    /// Display name of the client whose action produced the message.
    pub client_name: String,
    /// The text sent over the wire.
    pub message: String,
}

/// An application message sent by a client to the rest of its room.
pub struct ClientMsg {
    pub client_id: usize,
    pub client_name: String,
    pub message: String,
    pub room: String,
}

/// A request to join `room` under `name`; `addr` is the handle the registry
/// uses to reach the new connection.
pub struct Connect<H> {
    pub name: String,
    pub room: String,
    pub addr: H,
}

/// A request to remove the connection `id` from the registry.
pub struct Disconnect {
    pub id: usize,
    pub name: String,
}

/// One message for one recipient, produced by a broadcast.
pub struct Delivery {
    pub to: usize,
    pub msg: ServerMsg,
}

/// `d` sends, in order, the text `text` tagged with `name` to each of `to`.
pub open spec fn delivers(d: Seq<Delivery>, to: Seq<usize>, name: Seq<char>, text: Seq<char>) -> bool {
    &&& d.len() == to.len()
    &&& forall|k: int|
        0 <= k < d.len() ==> (#[trigger] d[k]).to == to[k] && d[k].msg.client_name@ == name
            && d[k].msg.message@ == text
}

impl ServerMsg {
    pub fn new(client_name: &String, message: &String) -> (r: ServerMsg)
        ensures
            r.client_name@ == client_name@,
            r.message@ == message@,
    {
        ServerMsg { client_name: client_name.clone(), message: message.clone() }
    }
}

} // verus!
