use server::{ChatServer, ClientMsg, Connect, Delivery, Disconnect};

fn join(server: &mut ChatServer<u32>, name: &str, room: &str, handle: u32) -> (usize, Vec<Delivery>) {
    server.connect(Connect { name: name.to_string(), room: room.to_string(), addr: handle })
}

fn relay(server: &ChatServer<u32>, id: usize, name: &str, room: &str, text: &str) -> Vec<Delivery> {
    server.handle_client_msg(ClientMsg {
        client_id: id,
        client_name: name.to_string(),
        message: text.to_string(),
        room: room.to_string(),
    })
}

#[test]
fn scenario_join_and_relay() {
    let mut server: ChatServer<u32> = ChatServer::new();
    let (alice, notices) = join(&mut server, "alice", "general", 10);
    assert_eq!(alice, 1);
    assert!(notices.is_empty());
    let (bob, notices) = join(&mut server, "bob", "general", 20);
    assert_eq!(bob, 2);
    assert_eq!(notices.len(), 1);
    assert_eq!(notices[0].to, 1);
    assert_eq!(notices[0].msg.message, "bob joined room general");
    assert_eq!(notices[0].msg.client_name, "bob");

    let out = relay(&server, 2, "bob", "general", "hi");
    assert_eq!(out.len(), 1);
    assert_eq!(out[0].to, 1);
    let v: serde_json::Value = serde_json::from_str(&out[0].msg.message).unwrap();
    assert_eq!(v["clientId"], 2);
    assert_eq!(v["clientName"], "bob");
    assert_eq!(v["message"], "hi");
    assert_eq!(v.as_object().unwrap().len(), 3);
}

#[test]
fn relay_payload_escapes_text() {
    let mut server: ChatServer<u32> = ChatServer::new();
    join(&mut server, "a", "r", 1);
    join(&mut server, "b", "r", 2);
    let out = relay(&server, 1, "a", "r", "say \"x\"");
    assert_eq!(out.len(), 1);
    assert_eq!(out[0].msg.message, r#"{"clientId":1,"clientName":"a","message":"say \"x\""}"#);
}

#[test]
fn scenario_leave_then_relay_is_noop() {
    let mut server: ChatServer<u32> = ChatServer::new();
    let (a, _) = join(&mut server, "alice", "general", 10);
    let (b, _) = join(&mut server, "bob", "general", 20);
    let out = server.disconnect(Disconnect { id: a, name: "alice".to_string() });
    assert_eq!(out.len(), 1);
    assert_eq!(out[0].to, b);
    assert_eq!(out[0].msg.message, "alice left room general");
    assert!(relay(&server, a, "alice", "general", "still here?").is_empty());
    assert!(server.handle_of(a).is_none());
    assert_eq!(server.handle_of(b), Some(&20));
}

#[test]
fn leave_twice_changes_nothing_more() {
    let mut server: ChatServer<u32> = ChatServer::new();
    let (a, _) = join(&mut server, "alice", "general", 10);
    let (b, _) = join(&mut server, "bob", "general", 20);
    assert_eq!(server.disconnect(Disconnect { id: a, name: "alice".to_string() }).len(), 1);
    assert!(server.disconnect(Disconnect { id: a, name: "alice".to_string() }).is_empty());
    assert_eq!(server.handle_of(b), Some(&20));
    let (c, notices) = join(&mut server, "carol", "general", 30);
    assert_eq!(c, 3);
    assert_eq!(notices.len(), 1);
    assert_eq!(notices[0].to, b);
}

#[test]
fn relay_stays_in_room() {
    let mut server: ChatServer<u32> = ChatServer::new();
    let (a, _) = join(&mut server, "a", "general", 1);
    let (b, _) = join(&mut server, "b", "general", 2);
    let (c, notices) = join(&mut server, "c", "random", 3);
    assert!(notices.is_empty());
    let out = relay(&server, a, "a", "general", "hello");
    let to: Vec<usize> = out.iter().map(|d| d.to).collect();
    assert_eq!(to, vec![b]);
    assert!(!to.contains(&c));
    assert!(!to.contains(&a));
}

#[test]
fn relay_to_unknown_room_is_noop() {
    let mut server: ChatServer<u32> = ChatServer::new();
    let (a, _) = join(&mut server, "a", "general", 1);
    join(&mut server, "b", "general", 2);
    assert!(relay(&server, a, "a", "nowhere", "x").is_empty());
    assert!(relay(&server, 99, "ghost", "general", "x").is_empty());
}

#[test]
fn room_names_are_case_sensitive() {
    let mut server: ChatServer<u32> = ChatServer::new();
    join(&mut server, "a", "General", 1);
    let (_, notices) = join(&mut server, "b", "general", 2);
    assert!(notices.is_empty());
}

#[test]
fn first_join_creates_room_with_one_member() {
    let mut server: ChatServer<u32> = ChatServer::new();
    let (a, notices) = join(&mut server, "a", "fresh", 7);
    assert!(notices.is_empty());
    assert_eq!(server.handle_of(a), Some(&7));
    let (_, notices) = join(&mut server, "b", "fresh", 8);
    let to: Vec<usize> = notices.iter().map(|d| d.to).collect();
    assert_eq!(to, vec![a]);
}

#[test]
fn empty_room_persists_and_rejoins() {
    let mut server: ChatServer<u32> = ChatServer::new();
    let (a, _) = join(&mut server, "a", "r", 1);
    assert!(server.disconnect(Disconnect { id: a, name: "a".to_string() }).is_empty());
    let (b, notices) = join(&mut server, "b", "r", 2);
    assert_eq!(b, 2);
    assert!(notices.is_empty());
}

#[test]
fn deliver_client_msg_sends_given_payload() {
    let mut server: ChatServer<u32> = ChatServer::new();
    let (a, _) = join(&mut server, "a", "r", 1);
    let (b, _) = join(&mut server, "b", "r", 2);
    let (c, _) = join(&mut server, "c", "r", 3);
    let msg = ClientMsg {
        client_id: b,
        client_name: "b".to_string(),
        message: "m".to_string(),
        room: "r".to_string(),
    };
    let out = server.deliver_client_msg(&msg, &"payload".to_string());
    let to: Vec<usize> = out.iter().map(|d| d.to).collect();
    assert_eq!(to, vec![a, c]);
    assert!(out.iter().all(|d| d.msg.message == "payload" && d.msg.client_name == "b"));
}

#[test]
fn rooms_are_known_after_first_join() {
    let mut server: ChatServer<u32> = ChatServer::new();
    assert!(!server.has_room(&"general".to_string()));
    let (a, _) = join(&mut server, "a", "general", 1);
    assert!(server.has_room(&"general".to_string()));
    assert!(!server.has_room(&"General".to_string()));
    server.disconnect(Disconnect { id: a, name: "a".to_string() });
    assert!(server.has_room(&"general".to_string()));
}
