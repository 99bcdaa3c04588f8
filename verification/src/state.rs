//! The state of the client: what the server has told it and what is queued.
use std::collections::VecDeque;

use vstd::prelude::*;

use crate::irc::{
    IrcLine,
    ascii_uppercase,
    command_word,
    describe,
    event_text,
    is_ascii_text,
    line_of,
    parse_irc,
    parse_line,
};
use crate::text::{same_text, texts};

verus! {

/// As many events are queued for the reader.
pub const MAX_EVENTS: usize = 500;

/// As many lines from the server are remembered.
pub const MAX_LOG: usize = 100;

/// What the client knows of its connection.
pub struct IrcState {
    /// The number of the connection, from one for the first.
    pub connection: u64,
    /// Whether there is a connection to write to.
    pub connected: bool,
    pub nick: String,
    pub server: String,
    pub channels: Vec<String>,
    /// Whether the server has accepted the nick.
    pub registered: bool,
    /// Events for the reader, oldest first.
    pub messages: VecDeque<String>,
    /// Lines from the server, oldest first.
    pub log: VecDeque<String>,
}

/// What an `IrcState` stands for.
#[verifier::ext_equal]
pub struct Session {
    pub connection: u64,
    pub connected: bool,
    pub nick: Seq<char>,
    pub server: Seq<char>,
    pub channels: Seq<Seq<char>>,
    pub registered: bool,
    pub messages: Seq<Seq<char>>,
    pub log: Seq<Seq<char>>,
}

impl View for IrcState {
    type V = Session;

    open spec fn view(&self) -> Session {
        Session {
            connection: self.connection,
            connected: self.connected,
            nick: self.nick@,
            server: self.server@,
            channels: texts(self.channels@),
            registered: self.registered,
            messages: texts(self.messages@),
            log: texts(self.log@),
        }
    }
}

impl Session {
    /// The session before any connection.
    pub open spec fn initial() -> Session {
        Session {
            connection: 0,
            connected: false,
            nick: Seq::empty(),
            server: Seq::empty(),
            channels: Seq::empty(),
            registered: false,
            messages: Seq::empty(),
            log: Seq::empty(),
        }
    }

    /// The log never outgrows its limit.
    pub open spec fn wf(self) -> bool {
        self.log.len() <= MAX_LOG
    }
}

impl IrcState {
    /// The state before any connection.
    pub fn new() -> (r: IrcState)
        ensures
            r@ == Session::initial(),
            r@.wf(),
    {
        let r = IrcState {
            connection: 0,
            connected: false,
            nick: String::new(),
            server: String::new(),
            channels: Vec::new(),
            registered: false,
            messages: VecDeque::new(),
            log: VecDeque::new(),
        };
        assert(r@ =~= Session::initial());
        r
    }
}

// ---- queues -------------------------------------------------------------------

/// `queue` with `item` at its end, and without its oldest item where it would
/// hold more than `limit`.
pub open spec fn push_bounded(queue: Seq<Seq<char>>, item: Seq<char>, limit: nat) -> Seq<
    Seq<char>,
> {
    if queue.len() + 1 > limit {
        queue.push(item).skip(1)
    } else {
        queue.push(item)
    }
}

/// Adds `item` at the end of `queue`, and drops the oldest where there are then
/// more than `limit`.
fn push_limited(queue: &mut VecDeque<String>, item: String, limit: usize)
    ensures
        texts(final(queue)@) == push_bounded(texts(old(queue)@), item@, limit as nat),
{
    let ghost before = texts(queue@);
    queue.push_back(item);
    assert(texts(queue@) =~= before.push(item@));
    if queue.len() > limit {
        let ghost full = queue@;
        let _ = queue.pop_front();
        assert(texts(queue@) =~= texts(full).skip(1));
    }
}

/// Queues an event for the reader.
pub fn push_event(st: &mut IrcState, text: String)
    ensures
        final(st)@ == (Session {
            messages: push_bounded(old(st)@.messages, text@, MAX_EVENTS as nat),
            ..old(st)@
        }),
{
    push_limited(&mut st.messages, text, MAX_EVENTS);
}

// ---- sending ------------------------------------------------------------------

/// What goes over the wire for a line.
pub open spec fn frame(line: Seq<char>) -> Seq<char> {
    line + "\r\n"@
}

/// What is written for a line, or why it cannot be sent.
pub open spec fn to_write(s: Session, line: Seq<char>) -> Result<Seq<char>, Seq<char>> {
    if s.connected {
        Ok(frame(line))
    } else {
        Err("not connected"@)
    }
}

/// What to write for `line`, or why it cannot be sent.
pub fn send_raw(st: &IrcState, line: &str) -> (r: Result<String, String>)
    ensures
        match r {
            Ok(f) => to_write(st@, line@) == (Ok::<Seq<char>, Seq<char>>(f@)),
            Err(e) => to_write(st@, line@) == (Err::<Seq<char>, Seq<char>>(e@)),
        },
{
    if st.connected {
        Ok(line.to_owned().concat("\r\n"))
    } else {
        Err("not connected".to_owned())
    }
}

/// What is reported of a write that failed for the given reason.
pub open spec fn failed_write(reason: Seq<char>) -> Seq<char> {
    "send failed: "@ + reason
}

/// What is reported of a write that failed for the given reason.
pub fn send_failed(reason: &str) -> (r: String)
    ensures
        r@ == failed_write(reason@),
{
    "send failed: ".to_owned().concat(reason)
}

// ---- receiving ----------------------------------------------------------------

/// The session once the line `raw`, taken apart as `m`, has arrived.
pub open spec fn received(s: Session, raw: Seq<char>, m: IrcLine) -> Session {
    let logged = Session { log: push_bounded(s.log, raw, MAX_LOG as nat), ..s };
    if m.cmd == "PING"@ {
        logged
    } else {
        let seen = Session { registered: s.registered || m.cmd == "001"@, ..logged };
        match event_text(m) {
            Some(e) => Session {
                messages: push_bounded(s.messages, e, MAX_EVENTS as nat),
                ..seen
            },
            None => seen,
        }
    }
}

/// What is written in answer to a line, if anything.
pub open spec fn answer(s: Session, m: IrcLine) -> Option<Seq<char>> {
    if m.cmd == "PING"@ && s.connected {
        Some(frame("PONG :"@ + m.trailing))
    } else {
        None
    }
}

/// Takes note of the line `raw` of the present connection, which has the given parts. Returns what to
/// write in answer; it is of no consequence whether the write succeeds.
pub fn receive(
    st: &mut IrcState,
    raw: &str,
    from: &str,
    cmd: &str,
    args: &Vec<String>,
    trailing: &str,
) -> (r: Option<String>)
    ensures
        final(st)@ == received(old(st)@, raw@, line_of(from@, cmd@, texts(args@), trailing@)),
        old(st)@.wf() ==> final(st)@.wf(),
        match r {
            Some(f) => answer(old(st)@, line_of(from@, cmd@, texts(args@), trailing@)) == Some(f@),
            None => answer(old(st)@, line_of(from@, cmd@, texts(args@), trailing@)) is None,
        },
{
    push_limited(&mut st.log, raw.to_owned(), MAX_LOG);
    if same_text(cmd, "PING") {
        let pong = "PONG :".to_owned().concat(trailing);
        return match send_raw(st, pong.as_str()) {
            Ok(f) => Some(f),
            Err(_) => None,
        };
    }
    if same_text(cmd, "001") {
        st.registered = true;
    }
    match describe(from, cmd, args, trailing) {
        Some(e) => {
            push_event(st, e);
        },
        None => {},
    }
    None
}

/// The session once a line of the given connection has arrived: one that has
/// been replaced has no part in it.
pub open spec fn arrived(s: Session, connection: u64, line: Seq<char>) -> Session {
    if connection == s.connection {
        received(s, line, parse_line(line))
    } else {
        s
    }
}

/// What is written in answer to a line of the given connection, if anything.
pub open spec fn reply_to(s: Session, connection: u64, line: Seq<char>) -> Option<Seq<char>> {
    if connection == s.connection {
        answer(s, parse_line(line))
    } else {
        None
    }
}

/// Takes note of a line from the server of the given connection. Returns what to
/// write in answer; it is of no consequence whether the write succeeds.
pub fn handle_line(st: &mut IrcState, connection: u64, line: &str) -> (r: Option<String>)
    ensures
        final(st)@ == arrived(old(st)@, connection, line@),
        old(st)@.wf() ==> final(st)@.wf(),
        match r {
            Some(f) => reply_to(old(st)@, connection, line@) == Some(f@),
            None => reply_to(old(st)@, connection, line@) is None,
        },
        connection == old(st)@.connection && is_ascii_text(command_word(line@)) ==> parse_line(
            line@,
        ).cmd == ascii_uppercase(command_word(line@)),
{
    if connection != st.connection {
        return None;
    }
    let (from, cmd, args, trailing) = parse_irc(line);
    assert(line_of(from@, cmd@, texts(args@), trailing@) == parse_line(line@));
    receive(st, line, from.as_str(), cmd.as_str(), &args, trailing.as_str())
}

/// The session once the server has gone.
pub open spec fn disconnected(s: Session) -> Session {
    Session {
        connected: false,
        registered: false,
        messages: s.messages.push("* disconnected from server"@),
        ..s
    }
}

/// The session once the server of the given connection has gone: one that has
/// been replaced has no part in it.
pub open spec fn ended(s: Session, connection: u64) -> Session {
    if connection == s.connection {
        disconnected(s)
    } else {
        s
    }
}

/// Takes note that the server of the given connection has gone.
pub fn handle_disconnect(st: &mut IrcState, connection: u64)
    ensures
        final(st)@ == ended(old(st)@, connection),
        old(st)@.wf() ==> final(st)@.wf(),
{
    if connection != st.connection {
        return;
    }
    let ghost before = st@.messages;
    st.connected = false;
    st.registered = false;
    st.messages.push_back("* disconnected from server".to_owned());
    assert(st@.messages =~= before.push("* disconnected from server"@));
}

} // verus!
