use vstd::prelude::*;

use crate::message::{ClientMsg, Connect, Disconnect};

verus! {

/// Lifecycle of one connection.
#[derive(Clone, Copy, Debug, PartialEq, Eq, Structural)]
pub enum SessionState {
    /// Waiting for the registry to assign an identity.
    Connecting,
    /// Joined: relaying in both directions.
    Active,
    /// Shutting down after having joined; the leave is still owed.
    Stopping,
    /// Done; nothing more is sent.
    Stopped,
}

/// An inbound transport event.
pub enum Frame {
    Text(String),
    Ping(Vec<u8>),
    Pong,
    Close,
    /// A fragment of a larger frame, which is not supported.
    Continuation,
    /// Any other frame kind, ignored.
    Other,
    /// A transport read error.
    Error,
}

/// What the session asks its runtime to do next.
pub enum Action {
    Nothing,
    /// Send this message to the registry.
    Relay(ClientMsg),
    /// Answer a ping with these bytes.
    Pong(Vec<u8>),
    /// Probe the peer.
    Ping,
    /// Close the transport in an orderly way.
    Close,
    /// Terminate the session.
    Stop,
    /// Send this leave to the registry, then terminate the session at once.
    Evict(Disconnect),
}

pub struct SessionView {
    pub id: usize,
    pub name: Seq<char>,
    pub room: Seq<char>,
    /// Time of the last inbound activity.
    pub last_seen: u64,
    /// Silence longer than this evicts the session.
    pub timeout: u64,
    pub state: SessionState,
}

/// More than `timeout` has passed since `last_seen`.
pub open spec fn timed_out(last_seen: u64, now: u64, timeout: u64) -> bool {
    now - last_seen > timeout
}

/// `char::is_whitespace`: the characters with Unicode's White_Space property.
pub open spec fn is_white_space(c: char) -> bool {
    let n = c as u32;
    (0x09 <= n <= 0x0d) || n == 0x20 || n == 0x85 || n == 0xa0 || n == 0x1680 || (0x2000 <= n
        <= 0x200a) || n == 0x2028 || n == 0x2029 || n == 0x202f || n == 0x205f || n == 0x3000
}

/// `s` without its leading run of white space.
pub open spec fn trim_start(s: Seq<char>) -> Seq<char>
    decreases s.len(),
{
    if s.len() > 0 && is_white_space(s[0]) {
        trim_start(s.drop_first())
    } else {
        s
    }
}

/// `s` without its trailing run of white space.
pub open spec fn trim_end(s: Seq<char>) -> Seq<char>
    decreases s.len(),
{
    if s.len() > 0 && is_white_space(s.last()) {
        trim_end(s.drop_last())
    } else {
        s
    }
}

/// The text with leading and trailing white space removed.
pub open spec fn trimmed(s: Seq<char>) -> Seq<char> {
    trim_end(trim_start(s))
}

/// Relies on `str::trim`, which removes the leading and trailing characters
/// for which `char::is_whitespace` holds.
#[verifier::external_body]
fn trim_text(s: &String) -> (r: String)
    ensures
        r@ == trimmed(s@),
{
    s.trim().to_string()
}

/// One client connection: its identity once joined, its name and room, and
/// the liveness state read by the heartbeat.
pub struct ChatSession {
    id: usize,
    name: String,
    room: String,
    hb: u64,
    timeout: u64,
    state: SessionState,
}

impl View for ChatSession {
    type V = SessionView;

    closed spec fn view(&self) -> SessionView {
        SessionView {
            id: self.id,
            name: self.name@,
            room: self.room@,
            last_seen: self.hb,
            timeout: self.timeout,
            state: self.state,
        }
    }
}

impl ChatSession {
    /// A session for `name` in `room`, created at time `now`, that is evicted
    /// after more than `timeout` of silence.
    pub fn new(name: String, room: String, now: u64, timeout: u64) -> (r: Self)
        ensures
            r@ == (SessionView {
                id: 0,
                name: name@,
                room: room@,
                last_seen: now,
                timeout,
                state: SessionState::Connecting,
            }),
    {
        ChatSession { id: 0, name, room, hb: now, timeout, state: SessionState::Connecting }
    }

    pub fn id(&self) -> (r: usize)
        ensures
            r == self@.id,
    {
        self.id
    }

    pub fn state(&self) -> (r: SessionState)
        ensures
            r == self@.state,
    {
        self.state
    }

    /// The join request the session sends on start, carrying its own handle.
    pub fn started<H>(&self, addr: H) -> (r: Connect<H>)
        ensures
            r.name@ == self@.name,
            r.room@ == self@.room,
            r.addr == addr,
    {
        Connect { name: self.name.clone(), room: self.room.clone(), addr }
    }

    /// Takes the registry's answer to the join request: an identity makes the
    /// session active; no answer stops it, with nothing owed to the registry.
    pub fn joined(&mut self, reply: Option<usize>) -> (r: Action)
        ensures
            old(self)@.state != SessionState::Connecting ==> final(self)@ == old(self)@ && r
                is Nothing,
            old(self)@.state == SessionState::Connecting ==> match reply {
                Some(id) => final(self)@ == (SessionView {
                    id,
                    state: SessionState::Active,
                    ..old(self)@
                }) && r is Nothing,
                None => final(self)@ == (SessionView {
                    state: SessionState::Stopped,
                    ..old(self)@
                }) && r is Stop,
            },
    {
        if self.state != SessionState::Connecting {
            return Action::Nothing;
        }
        match reply {
            Some(id) => {
                self.id = id;
                self.state = SessionState::Active;
                Action::Nothing
            },
            None => {
                self.state = SessionState::Stopped;
                Action::Stop
            },
        }
    }

    /// The relay request for an inbound text, already trimmed.
    pub fn client_msg(&self, message: String) -> (r: ClientMsg)
        ensures
            r.client_id == self@.id,
            r.client_name@ == self@.name,
            r.message@ == message@,
            r.room@ == self@.room,
    {
        ClientMsg {
            client_id: self.id,
            client_name: self.name.clone(),
            message,
            room: self.room.clone(),
        }
    }

    /// Handles one inbound frame received at time `now`. Only an active
    /// session reacts; inbound text and probes refresh the liveness time.
    pub fn handle(&mut self, frame: Frame, now: u64) -> (r: Action)
        ensures
            old(self)@.state != SessionState::Active ==> final(self)@ == old(self)@ && r
                is Nothing,
            old(self)@.state == SessionState::Active ==> match frame {
                Frame::Text(t) => final(self)@ == (SessionView { last_seen: now, ..old(self)@ })
                    && match r {
                    Action::Relay(m) => m.client_id == old(self)@.id && m.client_name@ == old(
                        self,
                    )@.name && m.room@ == old(self)@.room && m.message@ == trimmed(t@),
                    _ => false,
                },
                Frame::Ping(b) => final(self)@ == (SessionView { last_seen: now, ..old(self)@ })
                    && r == Action::Pong(b),
                Frame::Pong => final(self)@ == (SessionView { last_seen: now, ..old(self)@ })
                    && r is Nothing,
                Frame::Close => final(self)@ == (SessionView {
                    state: SessionState::Stopping,
                    ..old(self)@
                }) && r is Close,
                Frame::Continuation | Frame::Error => final(self)@ == (SessionView {
                    state: SessionState::Stopping,
                    ..old(self)@
                }) && r is Stop,
                Frame::Other => final(self)@ == old(self)@ && r is Nothing,
            },
    {
        if self.state != SessionState::Active {
            return Action::Nothing;
        }
        match frame {
            Frame::Text(t) => {
                self.hb = now;
                let text = trim_text(&t);
                Action::Relay(self.client_msg(text))
            },
            Frame::Ping(b) => {
                self.hb = now;
                Action::Pong(b)
            },
            Frame::Pong => {
                self.hb = now;
                Action::Nothing
            },
            Frame::Close => {
                self.state = SessionState::Stopping;
                Action::Close
            },
            Frame::Continuation | Frame::Error => {
                self.state = SessionState::Stopping;
                Action::Stop
            },
            Frame::Other => Action::Nothing,
        }
    }

    /// One tick of the liveness monitor at time `now`. An active session
    /// silent for longer than its timeout is evicted: the leave is issued and
    /// the session stops. Otherwise an active session probes its peer.
    pub fn heartbeat(&mut self, now: u64) -> (r: Action)
        ensures
            old(self)@.state != SessionState::Active ==> final(self)@ == old(self)@ && r
                is Nothing,
            old(self)@.state == SessionState::Active && timed_out(
                old(self)@.last_seen,
                now,
                old(self)@.timeout,
            ) ==> final(self)@ == (SessionView { state: SessionState::Stopped, ..old(self)@ })
                && match r {
                Action::Evict(d) => d.id == old(self)@.id && d.name@ == old(self)@.name,
                _ => false,
            },
            old(self)@.state == SessionState::Active && !timed_out(
                old(self)@.last_seen,
                now,
                old(self)@.timeout,
            ) ==> final(self)@ == old(self)@ && r is Ping,
    {
        if self.state != SessionState::Active {
            return Action::Nothing;
        }
        if now > self.hb && now - self.hb > self.timeout {
            self.state = SessionState::Stopped;
            Action::Evict(Disconnect { id: self.id, name: self.name.clone() })
        } else {
            Action::Ping
        }
    }

    /// Called once the session is shutting down: a session that joined and
    /// has not left yet owes exactly one leave, returned here.
    pub fn stopping(&mut self) -> (r: Option<Disconnect>)
        ensures
            final(self)@ == (SessionView { state: SessionState::Stopped, ..old(self)@ }),
            (old(self)@.state == SessionState::Active || old(self)@.state
                == SessionState::Stopping) ==> match r {
                Some(d) => d.id == old(self)@.id && d.name@ == old(self)@.name,
                None => false,
            },
            (old(self)@.state == SessionState::Connecting || old(self)@.state
                == SessionState::Stopped) ==> r is None,
    {
        let owed = self.state == SessionState::Active || self.state == SessionState::Stopping;
        self.state = SessionState::Stopped;
        if owed {
            Some(Disconnect { id: self.id, name: self.name.clone() })
        } else {
            None
        }
    }
}

} // verus!
