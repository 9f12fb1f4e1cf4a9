use vstd::prelude::*;

use crate::message::{delivers, ClientMsg, Connect, Delivery, Disconnect, ServerMsg};

verus! {

/// A member as the contracts see it: its identity and the name of its room.
pub type MemberView = (usize, Seq<char>);

/// Abstract state of the registry.
pub struct ServerView {
    /// Live connections, in order of arrival.
    pub members: Seq<MemberView>,
    /// Every room name ever joined; rooms are never deleted.
    pub rooms: Seq<Seq<char>>,
    /// The last identity handed out.
    pub last: usize,
}

pub open spec fn ids_unique(ms: Seq<MemberView>) -> bool {
    forall|i: int, j: int|
        0 <= i < ms.len() && 0 <= j < ms.len() && i != j ==> #[trigger] ms[i].0 != #[trigger] ms[j].0
}

pub open spec fn is_member(ms: Seq<MemberView>, id: usize) -> bool {
    exists|i: int| 0 <= i < ms.len() && ms[i].0 == id
}

/// The room of the live connection `id`.
pub open spec fn room_of(ms: Seq<MemberView>, id: usize) -> Seq<char> {
    ms[choose|i: int| 0 <= i < ms.len() && ms[i].0 == id].1
}

/// Identities in `room`, in registry order, leaving out `skip`.
pub open spec fn targets(ms: Seq<MemberView>, room: Seq<char>, skip: usize) -> Seq<usize>
    decreases ms.len(),
{
    if ms.len() == 0 {
        Seq::empty()
    } else {
        let rest = targets(ms.drop_last(), room, skip);
        if ms.last().1 == room && ms.last().0 != skip {
            rest.push(ms.last().0)
        } else {
            rest
        }
    }
}

/// Identities in `room`, in registry order.
pub open spec fn members_in(ms: Seq<MemberView>, room: Seq<char>) -> Seq<usize>
    decreases ms.len(),
{
    if ms.len() == 0 {
        Seq::empty()
    } else {
        let rest = members_in(ms.drop_last(), room);
        if ms.last().1 == room {
            rest.push(ms.last().0)
        } else {
            rest
        }
    }
}

/// Well-formed registry state: identities are unique and never above the
/// counter, every member's room is known, and room names are distinct.
pub open spec fn wf_view(v: ServerView) -> bool {
    &&& ids_unique(v.members)
    &&& forall|i: int|
        0 <= i < v.members.len() ==> (#[trigger] v.members[i]).0 <= v.last && v.rooms.contains(
            v.members[i].1,
        )
    &&& v.rooms.no_duplicates()
}

/// State after a join to `room`: the next identity becomes a member, and the
/// room is created if it was unknown.
pub open spec fn spec_join(v: ServerView, room: Seq<char>) -> ServerView {
    ServerView {
        members: v.members.push(((v.last + 1) as usize, room)),
        rooms: if v.rooms.contains(room) {
            v.rooms
        } else {
            v.rooms.push(room)
        },
        last: (v.last + 1) as usize,
    }
}

/// State after `id` leaves: it is removed if present, otherwise nothing changes.
pub open spec fn spec_leave(v: ServerView, id: usize) -> ServerView {
    if is_member(v.members, id) {
        let i = choose|i: int| 0 <= i < v.members.len() && v.members[i].0 == id;
        ServerView { members: v.members.remove(i), rooms: v.rooms, last: v.last }
    } else {
        v
    }
}

/// Who is told that `id` left: the rest of its room, or nobody if `id` was not live.
pub open spec fn departure_targets(v: ServerView, id: usize) -> Seq<usize> {
    if is_member(v.members, id) {
        targets(spec_leave(v, id).members, room_of(v.members, id), id)
    } else {
        Seq::empty()
    }
}

/// Who receives a relay from `id` to `room`: the rest of the room, provided
/// `id` is a live member of it; nobody otherwise.
pub open spec fn relay_targets(v: ServerView, id: usize, room: Seq<char>) -> Seq<usize> {
    if v.members.contains((id, room)) {
        targets(v.members, room, id)
    } else {
        Seq::empty()
    }
}

pub open spec fn join_notice(name: Seq<char>, room: Seq<char>) -> Seq<char> {
    name + " joined room "@ + room
}

pub open spec fn leave_notice(name: Seq<char>, room: Seq<char>) -> Seq<char> {
    name + " left room "@ + room
}

/// The compact JSON text of an object with an integer and two string members,
/// under keys `k1`, `k2` and `k3`.
pub uninterp spec fn json_object3(
    k1: Seq<char>,
    v1: usize,
    k2: Seq<char>,
    v2: Seq<char>,
    k3: Seq<char>,
    v3: Seq<char>,
) -> Seq<char>;

/// The wire form of a relayed message: the sender's identity, name and text.
pub open spec fn relay_json(id: usize, name: Seq<char>, text: Seq<char>) -> Seq<char> {
    json_object3("clientId"@, id, "clientName"@, name, "message"@, text)
}

/// Relies on serde_json's `Map::insert`, `Value::from` and the compact
/// `Display` of `Value`: the text depends on the keys and values alone.
#[verifier::external_body]
fn encode_object3(k1: &str, v1: usize, k2: &str, v2: &String, k3: &str, v3: &String) -> (r:
    String)
    ensures
        r@ == json_object3(k1@, v1, k2@, v2@, k3@, v3@),
{
    let mut m = serde_json::Map::new();
    m.insert(String::from(k1), serde_json::Value::from(v1));
    m.insert(String::from(k2), serde_json::Value::from(v2.as_str()));
    m.insert(String::from(k3), serde_json::Value::from(v3.as_str()));
    serde_json::Value::Object(m).to_string()
}

struct Member<H> {
    id: usize,
    room: String,
    handle: H,
}

/// The registry of live connections and rooms. `H` is the handle through
/// which a connection is reached; the registry stores it and hands out
/// deliveries addressed by identity.
pub struct ChatServer<H> {
    members: Vec<Member<H>>,
    rooms: Vec<String>,
    last: usize,
}

impl<H> View for ChatServer<H> {
    type V = ServerView;

    closed spec fn view(&self) -> ServerView {
        ServerView {
            members: Seq::new(
                self.members@.len(),
                |i: int| (self.members@[i].id, self.members@[i].room@),
            ),
            rooms: Seq::new(self.rooms@.len(), |i: int| self.rooms@[i]@),
            last: self.last,
        }
    }
}

impl<H> ChatServer<H> {
    pub open spec fn wf(&self) -> bool {
        wf_view(self@)
    }

    /// The stored handles, index for index with `self@.members`.
    pub closed spec fn handles(&self) -> Seq<H> {
        Seq::new(self.members@.len(), |i: int| self.members@[i].handle)
    }

    /// An empty registry.
    pub fn new() -> (r: Self)
        ensures
            r.wf(),
            r@.members.len() == 0,
            r@.rooms.len() == 0,
            r@.last == 0,
    {
        ChatServer { members: Vec::new(), rooms: Vec::new(), last: 0 }
    }

    /// The last identity handed out; `connect` needs it below `usize::MAX`.
    pub fn last_id(&self) -> (r: usize)
        ensures
            r == self@.last,
    {
        self.last
    }

    fn position(&self, id: usize) -> (r: Option<usize>)
        requires
            self.wf(),
        ensures
            match r {
                Some(i) => i < self@.members.len() && self@.members[i as int].0 == id,
                None => !is_member(self@.members, id),
            },
    {
        let mut i: usize = 0;
        while i < self.members.len()
            invariant
                i <= self.members@.len(),
                forall|j: int| 0 <= j < i ==> self@.members[j].0 != id,
            decreases self.members.len() - i,
        {
            if self.members[i].id == id {
                return Some(i);
            }
            i += 1;
        }
        None
    }

    /// Whether a room of this name is known.
    pub fn has_room(&self, room: &String) -> (r: bool)
        ensures
            r == self@.rooms.contains(room@),
    {
        let mut i: usize = 0;
        while i < self.rooms.len()
            invariant
                i <= self.rooms@.len(),
                forall|j: int| 0 <= j < i ==> self@.rooms[j] != room@,
            decreases self.rooms.len() - i,
        {
            if self.rooms[i] == *room {
                assert(self@.rooms[i as int] == room@);
                return true;
            }
            i += 1;
        }
        false
    }

    /// The handle of the live connection `id`.
    pub fn handle_of(&self, id: usize) -> (r: Option<&H>)
        requires
            self.wf(),
        ensures
            r.is_some() == is_member(self@.members, id),
            r matches Some(h) ==> exists|i: int|
                0 <= i < self@.members.len() && self@.members[i].0 == id && *h
                    == self.handles()[i],
    {
        match self.position(id) {
            Some(i) => {
                assert(self.handles()[i as int] == self.members@[i as int].handle);
                Some(&self.members[i].handle)
            },
            None => None,
        }
    }

    /// `text`, tagged with `name`, for every member of `room` but `skip`.
    fn send_msg(&self, skip: usize, room: &String, name: &String, text: &String) -> (r: Vec<
        Delivery,
    >)
        ensures
            delivers(r@, targets(self@.members, room@, skip), name@, text@),
    {
        let ghost ms = self@.members;
        let mut out: Vec<Delivery> = Vec::new();
        let mut i: usize = 0;
        while i < self.members.len()
            invariant
                i <= self.members@.len(),
                ms == self@.members,
                delivers(out@, targets(ms.take(i as int), room@, skip), name@, text@),
            decreases self.members.len() - i,
        {
            assert(ms.take(i + 1).drop_last() =~= ms.take(i as int));
            let m = &self.members[i];
            if m.id != skip && m.room == *room {
                out.push(Delivery { to: m.id, msg: ServerMsg::new(name, text) });
            }
            i += 1;
        }
        assert(ms.take(ms.len() as int) =~= ms);
        out
    }

    /// Registers a new connection in `msg.room`, creating the room if needed,
    /// and tells the other members of the room. Returns the new identity and
    /// the join notices.
    pub fn connect(&mut self, msg: Connect<H>) -> (r: (usize, Vec<Delivery>))
        requires
            old(self).wf(),
            old(self)@.last < usize::MAX,
        ensures
            final(self).wf(),
            final(self)@ == spec_join(old(self)@, msg.room@),
            r.0 == old(self)@.last + 1,
            final(self).handles() == old(self).handles().push(msg.addr),
            delivers(
                r.1@,
                targets(final(self)@.members, msg.room@, r.0),
                msg.name@,
                join_notice(msg.name@, msg.room@),
            ),
            forall|k: int|
                0 <= k < r.1@.len() ==> (#[trigger] r.1@[k]).to != r.0
                    && old(self)@.members.contains((r.1@[k].to, msg.room@)),
            (forall|i: int|
                0 <= i < old(self)@.members.len() ==> (#[trigger] old(self)@.members[i]).1
                    != msg.room@) ==> r.1@.len() == 0 && final(self)@.rooms.contains(msg.room@)
                && members_in(final(self)@.members, msg.room@) == seq![r.0],
    {
        let ghost v = self@;
        let ghost hs = self.handles();
        let Connect { name, room, addr } = msg;
        let id = self.last + 1;
        self.last = id;
        let mut text = name.clone();
        text.append(" joined room ");
        text.append(room.as_str());
        if !self.has_room(&room) {
            self.rooms.push(room.clone());
        }
        self.members.push(Member { id, room: room.clone(), handle: addr });
        let ghost room_v = msg.room@;
        assert(self@.members =~= v.members.push((id, room_v)));
        assert(self.handles() =~= hs.push(msg.addr));
        assert(self@.rooms =~= spec_join(v, room_v).rooms);
        assert forall|i: int|
            0 <= i < self@.members.len() implies (#[trigger] self@.members[i]).0 <= self@.last
            && self@.rooms.contains(self@.members[i].1) by {
            if i < v.members.len() {
                assert(v.members[i] == self@.members[i]);
                let k = choose|k: int| 0 <= k < v.rooms.len() && v.rooms[k] == v.members[i].1;
                assert(self@.rooms[k] == v.rooms[k]);
            } else if v.rooms.contains(room_v) {
                let k = choose|k: int| 0 <= k < v.rooms.len() && v.rooms[k] == room_v;
                assert(self@.rooms[k] == room_v);
            } else {
                assert(self@.rooms[v.rooms.len() as int] == room_v);
            }
        }
        let out = self.send_msg(id, &room, &name, &text);
        proof {
            let t = targets(self@.members, room_v, id);
            lemma_targets_sound(self@.members, room_v, id);
            assert forall|k: int| 0 <= k < t.len() implies v.members.contains((t[k], room_v)) by {
                let j = choose|j: int|
                    0 <= j < self@.members.len() && self@.members[j] == (t[k], room_v);
                assert(j < v.members.len());
                assert(v.members[j] == self@.members[j]);
            }
            if forall|i: int| 0 <= i < v.members.len() ==> (#[trigger] v.members[i]).1 != room_v {
                law_lazy_room_creation(v, room_v);
                if t.len() > 0 {
                    let j = choose|j: int| 0 <= j < v.members.len() && v.members[j] == (t[0], room_v);
                    assert(v.members[j].1 == room_v);
                }
            }
        }
        (id, out)
    }

    /// Removes `msg.id` from the registry and tells the rest of its room.
    /// An identity that is not live leaves everything as it is.
    pub fn disconnect(&mut self, msg: Disconnect) -> (r: Vec<Delivery>)
        requires
            old(self).wf(),
        ensures
            final(self).wf(),
            final(self)@ == spec_leave(old(self)@, msg.id),
            !is_member(old(self)@.members, msg.id) ==> final(self).handles() == old(
                self,
            ).handles(),
            is_member(old(self)@.members, msg.id) ==> final(self).handles() == old(
                self,
            ).handles().remove(
                choose|i: int| 0 <= i < old(self)@.members.len() && old(self)@.members[i].0 == msg.id,
            ),
            delivers(
                r@,
                departure_targets(old(self)@, msg.id),
                msg.name@,
                leave_notice(msg.name@, room_of(old(self)@.members, msg.id)),
            ),
            !is_member(final(self)@.members, msg.id),
            !is_member(old(self)@.members, msg.id) ==> final(self)@ == old(self)@ && r@.len()
                == 0,
    {
        let ghost v = self@;
        let ghost hs = self.handles();
        proof {
            law_leave_removes(v, msg.id);
        }
        let Disconnect { id, name } = msg;
        match self.position(id) {
            None => Vec::new(),
            Some(i) => {
                let ghost c = choose|c: int| 0 <= c < v.members.len() && v.members[c].0 == id;
                assert(c == i);
                let m = self.members.remove(i);
                assert(self@.members =~= v.members.remove(i as int));
                assert(self.handles() =~= hs.remove(i as int));
                assert(self@.rooms =~= v.rooms);
                assert forall|a: int, b: int|
                    0 <= a < self@.members.len() && 0 <= b < self@.members.len() && a != b
                        implies #[trigger] self@.members[a].0 != #[trigger] self@.members[b].0 by {
                    let a0 = if a < i { a } else { a + 1 };
                    let b0 = if b < i { b } else { b + 1 };
                    assert(self@.members[a] == v.members[a0]);
                    assert(self@.members[b] == v.members[b0]);
                }
                assert forall|a: int| 0 <= a < self@.members.len() implies (
                #[trigger] self@.members[a]).0 <= self@.last && self@.rooms.contains(
                    self@.members[a].1,
                ) by {
                    let a0 = if a < i { a } else { a + 1 };
                    assert(self@.members[a] == v.members[a0]);
                }
                let mut text = name.clone();
                text.append(" left room ");
                text.append(m.room.as_str());
                self.send_msg(id, &m.room, &name, &text)
            },
        }
    }

    /// Every relay recipient is a member of the relay's room other than the
    /// sender, and no member of another room is one.
    proof fn lemma_relay_recipients(&self, id: usize, room: Seq<char>)
        requires
            self.wf(),
        ensures
            forall|k: int|
                0 <= k < relay_targets(self@, id, room).len() ==> (#[trigger] relay_targets(
                    self@,
                    id,
                    room,
                )[k]) != id && self@.members.contains((relay_targets(self@, id, room)[k], room)),
            forall|k: int, j: int|
                0 <= k < relay_targets(self@, id, room).len() && 0 <= j < self@.members.len()
                    && self@.members[j].1 != room ==> #[trigger] relay_targets(self@, id, room)[k]
                    != #[trigger] self@.members[j].0,
    {
        let v = self@;
        lemma_targets_sound(v.members, room, id);
        assert forall|k: int, j: int|
            0 <= k < relay_targets(v, id, room).len() && 0 <= j < v.members.len()
                && v.members[j].1 != room implies #[trigger] relay_targets(v, id, room)[k]
            != #[trigger] v.members[j].0 by {
            let x = relay_targets(v, id, room)[k];
            if x == v.members[j].0 {
                let a = choose|a: int| 0 <= a < v.members.len() && v.members[a] == (x, room);
                assert(v.members[a].0 == v.members[j].0);
            }
        }
    }

    /// Broadcasts `payload`, tagged with the sender's name, to the rest of
    /// the sender's room. Nothing is sent unless `msg.client_id` is a live
    /// member of `msg.room`.
    pub fn deliver_client_msg(&self, msg: &ClientMsg, payload: &String) -> (r: Vec<Delivery>)
        requires
            self.wf(),
        ensures
            delivers(
                r@,
                relay_targets(self@, msg.client_id, msg.room@),
                msg.client_name@,
                payload@,
            ),
            forall|k: int|
                0 <= k < r@.len() ==> (#[trigger] r@[k]).to != msg.client_id
                    && self@.members.contains((r@[k].to, msg.room@)),
            forall|k: int, j: int|
                0 <= k < r@.len() && 0 <= j < self@.members.len() && self@.members[j].1
                    != msg.room@ ==> #[trigger] r@[k].to != #[trigger] self@.members[j].0,
    {
        proof {
            self.lemma_relay_recipients(msg.client_id, msg.room@);
        }
        let ghost v = self@;
        match self.position(msg.client_id) {
            None => {
                assert(!v.members.contains((msg.client_id, msg.room@)));
                Vec::new()
            },
            Some(i) => {
                if self.members[i].room == msg.room {
                    assert(v.members[i as int] == (msg.client_id, msg.room@));
                    self.send_msg(msg.client_id, &msg.room, &msg.client_name, payload)
                } else {
                    assert(!v.members.contains((msg.client_id, msg.room@))) by {
                        if v.members.contains((msg.client_id, msg.room@)) {
                            let j = choose|j: int|
                                0 <= j < v.members.len() && v.members[j] == (
                                    msg.client_id,
                                    msg.room@,
                                );
                            assert(v.members[j].0 == v.members[i as int].0);
                        }
                    }
                    Vec::new()
                }
            },
        }
    }

    /// Relays a client's message: encodes it as a JSON object carrying the
    /// sender's identity, name and text, and broadcasts that to the rest of
    /// the sender's room.
    pub fn handle_client_msg(&self, msg: ClientMsg) -> (r: Vec<Delivery>)
        requires
            self.wf(),
        ensures
            delivers(
                r@,
                relay_targets(self@, msg.client_id, msg.room@),
                msg.client_name@,
                relay_json(msg.client_id, msg.client_name@, msg.message@),
            ),
            forall|k: int|
                0 <= k < r@.len() ==> (#[trigger] r@[k]).to != msg.client_id
                    && self@.members.contains((r@[k].to, msg.room@)),
            forall|k: int, j: int|
                0 <= k < r@.len() && 0 <= j < self@.members.len() && self@.members[j].1
                    != msg.room@ ==> #[trigger] r@[k].to != #[trigger] self@.members[j].0,
    {
        let payload = encode_object3(
            "clientId",
            msg.client_id,
            "clientName",
            &msg.client_name,
            "message",
            &msg.message,
        );
        self.deliver_client_msg(&msg, &payload)
    }
}

/// Every identity that `targets` yields is a member of `room` other than `skip`.
pub proof fn lemma_targets_sound(ms: Seq<MemberView>, room: Seq<char>, skip: usize)
    ensures
        forall|k: int|
            0 <= k < targets(ms, room, skip).len() ==> #[trigger] targets(ms, room, skip)[k]
                != skip && ms.contains((targets(ms, room, skip)[k], room)),
    decreases ms.len(),
{
    if ms.len() > 0 {
        let rest = ms.drop_last();
        lemma_targets_sound(rest, room, skip);
        assert forall|k: int| 0 <= k < targets(ms, room, skip).len() implies #[trigger] targets(
            ms,
            room,
            skip,
        )[k] != skip && ms.contains((targets(ms, room, skip)[k], room)) by {
            if k < targets(rest, room, skip).len() {
                let j = choose|j: int|
                    0 <= j < rest.len() && rest[j] == (targets(rest, room, skip)[k], room);
                assert(ms[j] == rest[j]);
            } else {
                assert(ms[ms.len() - 1] == ms.last());
            }
        }
    }
}

/// No member of `room` yields an empty member list.
pub proof fn lemma_members_in_absent(ms: Seq<MemberView>, room: Seq<char>)
    requires
        forall|i: int| 0 <= i < ms.len() ==> (#[trigger] ms[i]).1 != room,
    ensures
        members_in(ms, room).len() == 0,
    decreases ms.len(),
{
    if ms.len() > 0 {
        assert(ms.last() == ms[ms.len() - 1]);
        let rest = ms.drop_last();
        assert forall|i: int| 0 <= i < rest.len() implies (#[trigger] rest[i]).1 != room by {
            assert(rest[i] == ms[i]);
        }
        lemma_members_in_absent(rest, room);
    }
}

/// Room isolation: a relay to `room` never reaches a live member whose room
/// is another one.
pub proof fn law_room_isolation(
    v: ServerView,
    sender: usize,
    room: Seq<char>,
    member: usize,
    other_room: Seq<char>,
)
    requires
        wf_view(v),
        v.members.contains((member, other_room)),
        other_room != room,
    ensures
        !relay_targets(v, sender, room).contains(member),
{
    lemma_targets_sound(v.members, room, sender);
    if relay_targets(v, sender, room).contains(member) {
        let k = choose|k: int|
            0 <= k < relay_targets(v, sender, room).len() && relay_targets(v, sender, room)[k]
                == member;
        assert(targets(v.members, room, sender)[k] == member);
        let a = choose|a: int| 0 <= a < v.members.len() && v.members[a] == (member, room);
        let b = choose|b: int| 0 <= b < v.members.len() && v.members[b] == (member, other_room);
        assert(v.members[a].0 == v.members[b].0);
    }
}

/// No self-echo: the sender of a relay is never among its recipients.
pub proof fn law_no_self_echo(v: ServerView, sender: usize, room: Seq<char>)
    ensures
        !relay_targets(v, sender, room).contains(sender),
{
    lemma_targets_sound(v.members, room, sender);
}

/// A joining connection is not sent the notice of its own join.
pub proof fn law_join_notice_excludes_joiner(v: ServerView, room: Seq<char>)
    ensures
        !targets(spec_join(v, room).members, room, (v.last + 1) as usize).contains(
            (v.last + 1) as usize,
        ),
{
    lemma_targets_sound(spec_join(v, room).members, room, (v.last + 1) as usize);
}

/// Leaving twice is the same as leaving once: the state does not change
/// again and nobody is notified again.
pub proof fn law_leave_idempotent(v: ServerView, id: usize)
    requires
        wf_view(v),
    ensures
        spec_leave(spec_leave(v, id), id) == spec_leave(v, id),
        departure_targets(spec_leave(v, id), id).len() == 0,
{
    law_leave_removes(v, id);
}

/// After a leave the identity is no longer live, whatever the state before.
pub proof fn law_leave_removes(v: ServerView, id: usize)
    requires
        wf_view(v),
    ensures
        !is_member(spec_leave(v, id).members, id),
{
    if is_member(v.members, id) {
        let i = choose|i: int| 0 <= i < v.members.len() && v.members[i].0 == id;
        let w = spec_leave(v, id);
        if is_member(w.members, id) {
            let a = choose|a: int| 0 <= a < w.members.len() && w.members[a].0 == id;
            let a0 = if a < i { a } else { a + 1 };
            assert(w.members[a] == v.members[a0]);
        }
    }
}

/// Joining a room that has no members leaves it known, with the new
/// connection as its only member.
pub proof fn law_lazy_room_creation(v: ServerView, room: Seq<char>)
    requires
        forall|i: int| 0 <= i < v.members.len() ==> (#[trigger] v.members[i]).1 != room,
    ensures
        spec_join(v, room).rooms.contains(room),
        members_in(spec_join(v, room).members, room) == seq![(v.last + 1) as usize],
{
    lemma_members_in_absent(v.members, room);
    let w = spec_join(v, room);
    assert(w.members.drop_last() =~= v.members);
    if !v.rooms.contains(room) {
        assert(w.rooms[v.rooms.len() as int] == room);
    }
    assert(members_in(w.members, room) =~= seq![(v.last + 1) as usize]);
}

} // verus!
