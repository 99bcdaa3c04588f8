//! Connecting: dialing the pinned servers in turn, registering, joining.
use vstd::prelude::*;

use crate::pinned::{Pinned, Pins};
use crate::state::{IrcState, Session, failed_write, frame, send_failed, send_raw};
use crate::text::{decimal, decimal_of, join, joined, texts};

verus! {

// ---- dialing ------------------------------------------------------------------

/// The server to dial once the given ones have failed: the next in order.
pub open spec fn next_server(pins: Pins, errors: Seq<Seq<char>>) -> Option<(Seq<char>, u16)> {
    if errors.len() < pins.servers.len() {
        Some(pins.servers[errors.len() as int])
    } else {
        None
    }
}

/// What is reported of a server that could not be reached.
pub open spec fn dial_error(host: Seq<char>, port: u16, reason: Seq<char>) -> Seq<char> {
    "connect "@ + host + ":"@ + decimal(port as nat) + " failed: "@ + reason
}

/// What is reported of a server that could not be reached.
fn dial_error_text(host: &str, port: u16, reason: &str) -> (r: String)
    ensures
        r@ == dial_error(host@, port, reason@),
{
    "connect ".to_owned().concat(host).concat(":").concat(
        decimal_of(port as usize).as_str(),
    ).concat(" failed: ").concat(reason)
}

// ---- registering --------------------------------------------------------------

/// The number of the connection after the one with the number `n`.
pub open spec fn next_connection(n: u64) -> u64 {
    if n < u64::MAX {
        (n + 1) as u64
    } else {
        0
    }
}

/// The session once a server has been reached: that of a new connection, which
/// takes the place of the one before.
pub open spec fn reached(s: Session, pins: Pins, host: Seq<char>, port: u16) -> Session {
    Session {
        connection: next_connection(s.connection),
        connected: true,
        nick: pins.nick,
        server: host + ":"@ + decimal(port as nat),
        channels: pins.channels,
        registered: false,
        messages: Seq::empty(),
        log: s.log,
    }
}

/// What introduces the client to the server.
pub open spec fn introduction(nick: Seq<char>) -> Seq<Seq<char>> {
    seq![
        frame("NICK "@ + nick),
        frame("USER "@ + nick + " 0 * :"@ + nick + " (mcp-irc-client)"@),
    ]
}

/// A copy of a row of texts.
fn copy_texts(items: &Vec<String>) -> (r: Vec<String>)
    ensures
        texts(r@) == texts(items@),
{
    let mut r: Vec<String> = Vec::new();
    let mut i: usize = 0;
    while i < items.len()
        invariant
            i <= items.len(),
            texts(r@) == texts(items@).take(i as int),
        decreases items.len() - i,
    {
        let ghost done = texts(r@);
        r.push(items[i].clone());
        assert(texts(r@) =~= done.push(items@[i as int]@));
        assert(texts(items@).take(i + 1) =~= done.push(items@[i as int]@));
        i += 1;
    }
    assert(texts(items@).take(i as int) =~= texts(items@));
    r
}

/// Takes note that a server has been reached. Returns what to write to it, in
/// order.
fn begin(st: &mut IrcState, pinned: &Pinned, host: &str, port: u16) -> (r: Vec<String>)
    ensures
        final(st)@ == reached(old(st)@, pinned@, host@, port),
        texts(r@) == introduction(pinned@.nick),
        old(st)@.wf() ==> final(st)@.wf(),
{
    let nick = pinned.nick.as_str();
    st.connection = if st.connection < u64::MAX {
        st.connection + 1
    } else {
        0
    };
    st.connected = true;
    st.nick = pinned.nick.clone();
    st.server = host.to_owned().concat(":").concat(decimal_of(port as usize).as_str());
    st.channels = copy_texts(&pinned.channels);
    st.registered = false;
    st.messages.clear();
    assert(st@.messages =~= Seq::<Seq<char>>::empty());
    let mut r: Vec<String> = Vec::new();
    let name = "NICK ".to_owned().concat(nick);
    let user = "USER ".to_owned().concat(nick).concat(" 0 * :").concat(nick).concat(
        " (mcp-irc-client)",
    );
    match send_raw(st, name.as_str()) {
        Ok(f) => {
            r.push(f);
        },
        Err(_) => {},
    }
    match send_raw(st, user.as_str()) {
        Ok(f) => {
            r.push(f);
        },
        Err(_) => {},
    }
    assert(texts(r@) =~= introduction(pinned@.nick));
    r
}

// ---- joining ------------------------------------------------------------------

/// What to do next while the server has not accepted the nick.
pub enum RegisterStep {
    /// Wait a little and ask again.
    Wait,
    /// The attempt has failed: report this.
    Fail(String),
    /// Write these, in order, and then report. A write that fails ends the
    /// matter.
    Join { frames: Vec<String>, report: String },
}

/// What is written to join channels, in order.
pub open spec fn joins(channels: Seq<Seq<char>>) -> Seq<Seq<char>> {
    channels.map_values(|c: Seq<char>| frame("JOIN "@ + c))
}

/// What is reported of a connection that stands.
pub open spec fn connect_report(server: Seq<char>, pins: Pins) -> Seq<char> {
    let joined = if pins.channels.len() == 0 {
        ""@
    } else {
        ", joined "@ + join(pins.channels, " "@)
    };
    "connected to "@ + server + " as "@ + pins.nick + joined
}

/// What a `RegisterStep` stands for.
pub enum Registration {
    Wait,
    Fail(Seq<char>),
    Join { frames: Seq<Seq<char>>, report: Seq<char> },
}

impl View for RegisterStep {
    type V = Registration;

    open spec fn view(&self) -> Registration {
        match *self {
            RegisterStep::Wait => Registration::Wait,
            RegisterStep::Fail(e) => Registration::Fail(e@),
            RegisterStep::Join { frames, report } => Registration::Join {
                frames: texts(frames@),
                report: report@,
            },
        }
    }
}

/// What is done next about a server that has been written to.
pub open spec fn registration_of(s: Session, pins: Pins, expired: bool) -> Registration {
    if s.registered {
        if s.connected || pins.channels.len() == 0 {
            Registration::Join {
                frames: joins(pins.channels),
                report: connect_report(s.server, pins),
            }
        } else {
            Registration::Fail("not connected"@)
        }
    } else if !s.connected {
        Registration::Fail("server closed the connection during registration"@)
    } else if expired {
        Registration::Fail("timed out waiting for IRC registration (001)"@)
    } else {
        Registration::Wait
    }
}

/// The server has as many nanoseconds to accept the nick.
pub const REGISTRATION_TIME: u128 = 10_000_000_000;

/// It is asked again after as many milliseconds.
pub const REGISTRATION_POLL_MILLIS: u64 = 100;

/// What to do next about a server that was written to `waited` nanoseconds ago.
pub fn registration(st: &IrcState, pinned: &Pinned, waited: u128) -> (r: RegisterStep)
    ensures
        r@ == registration_of(st@, pinned@, waited > REGISTRATION_TIME),
{
    if st.registered {
        let mut frames: Vec<String> = Vec::new();
        let mut i: usize = 0;
        while i < pinned.channels.len()
            invariant
                i <= pinned.channels.len(),
                st@.registered,
                i > 0 ==> st@.connected,
                texts(frames@) == joins(pinned@.channels.take(i as int)),
            decreases pinned.channels.len() - i,
        {
            let ghost done = texts(frames@);
            let channel = pinned.channels[i].as_str();
            let line = "JOIN ".to_owned().concat(channel);
            match send_raw(st, line.as_str()) {
                Ok(f) => {
                    frames.push(f);
                    assert(texts(frames@) =~= done.push(f@));
                    assert(pinned@.channels.take(i + 1) =~= pinned@.channels.take(i as int).push(
                        channel@,
                    ));
                    assert(joins(pinned@.channels.take(i + 1)) =~= done.push(f@));
                },
                Err(e) => {
                    return RegisterStep::Fail(e);
                },
            }
            i += 1;
        }
        assert(pinned@.channels.take(i as int) =~= pinned@.channels);
        let joined_text = if pinned.channels.len() == 0 {
            "".to_owned()
        } else {
            ", joined ".to_owned().concat(joined(&pinned.channels, " ").as_str())
        };
        let report = "connected to ".to_owned().concat(st.server.as_str()).concat(" as ").concat(
            pinned.nick.as_str(),
        ).concat(joined_text.as_str());
        return RegisterStep::Join { frames, report };
    }
    if !st.connected {
        return RegisterStep::Fail("server closed the connection during registration".to_owned());
    }
    if waited > REGISTRATION_TIME {
        return RegisterStep::Fail("timed out waiting for IRC registration (001)".to_owned());
    }
    RegisterStep::Wait
}

// ---- the whole of it ----------------------------------------------------------

/// How far an attempt to connect has come.
pub enum ConnectPhase {
    /// The next server is being dialed; of those before it, what went wrong.
    Dialing { errors: Vec<String> },
    /// The server is being told who the client is.
    Introducing,
    /// The server is to accept the nick.
    Registering,
    /// The channels are being joined, with this to report.
    Joining { report: String },
    /// There is nothing left to do.
    Done,
}

/// What has come of the last action.
pub enum ConnectEvent {
    /// The server could not be reached.
    Unreachable { reason: String },
    /// The server was reached, but there is no reading from it.
    SetupFailed { reason: String },
    /// The server was reached.
    Reached,
    /// A write failed, and those after it were not tried.
    WriteFailed { reason: String },
    /// All was written, in order.
    Written,
    /// Lines from the server are being received, for as many nanoseconds.
    Listened { waited: u128 },
}

/// What to do next.
pub enum ConnectAction {
    /// Dial this host and port.
    Dial { host: String, port: u16 },
    /// Write these, in order.
    Write { frames: Vec<String> },
    /// Start to receive lines from the server.
    Listen,
    /// Go on receiving for a little while.
    Sleep,
    /// Report this; the attempt is over.
    Report(Result<String, String>),
}

/// What a `ConnectPhase` stands for.
pub enum Phase {
    Dialing { errors: Seq<Seq<char>> },
    Introducing,
    Registering,
    Joining { report: Seq<char> },
    Done,
}

/// What a `ConnectEvent` stands for.
pub enum Event {
    Unreachable { reason: Seq<char> },
    SetupFailed { reason: Seq<char> },
    Reached,
    WriteFailed { reason: Seq<char> },
    Written,
    Listened { waited: u128 },
}

/// What a `ConnectAction` stands for.
pub enum Action {
    Dial { host: Seq<char>, port: u16 },
    Write { frames: Seq<Seq<char>> },
    Listen,
    Sleep,
    Report(Result<Seq<char>, Seq<char>>),
}

impl View for ConnectPhase {
    type V = Phase;

    open spec fn view(&self) -> Phase {
        match *self {
            ConnectPhase::Dialing { errors } => Phase::Dialing { errors: texts(errors@) },
            ConnectPhase::Introducing => Phase::Introducing,
            ConnectPhase::Registering => Phase::Registering,
            ConnectPhase::Joining { report } => Phase::Joining { report: report@ },
            ConnectPhase::Done => Phase::Done,
        }
    }
}

impl View for ConnectEvent {
    type V = Event;

    open spec fn view(&self) -> Event {
        match *self {
            ConnectEvent::Unreachable { reason } => Event::Unreachable { reason: reason@ },
            ConnectEvent::SetupFailed { reason } => Event::SetupFailed { reason: reason@ },
            ConnectEvent::Reached => Event::Reached,
            ConnectEvent::WriteFailed { reason } => Event::WriteFailed { reason: reason@ },
            ConnectEvent::Written => Event::Written,
            ConnectEvent::Listened { waited } => Event::Listened { waited },
        }
    }
}

impl View for ConnectAction {
    type V = Action;

    open spec fn view(&self) -> Action {
        match *self {
            ConnectAction::Dial { host, port } => Action::Dial { host: host@, port },
            ConnectAction::Write { frames } => Action::Write { frames: texts(frames@) },
            ConnectAction::Listen => Action::Listen,
            ConnectAction::Sleep => Action::Sleep,
            ConnectAction::Report(Ok(t)) => Action::Report(Ok(t@)),
            ConnectAction::Report(Err(e)) => Action::Report(Err(e@)),
        }
    }
}

/// What is done once the given servers have failed: the next is dialed, or all
/// that went wrong is reported.
pub open spec fn dial_on(pins: Pins, errors: Seq<Seq<char>>) -> (Phase, Action) {
    match next_server(pins, errors) {
        Some((host, port)) => (Phase::Dialing { errors }, Action::Dial { host, port }),
        None => (Phase::Done, Action::Report(Err(join(errors, "; "@)))),
    }
}

/// Whether `e` can come of what is done in the phase `p`.
pub open spec fn can_follow(p: Phase, pins: Pins, e: Event) -> bool {
    match e {
        Event::Unreachable { .. } | Event::SetupFailed { .. } | Event::Reached => {
            p matches Phase::Dialing { errors } && next_server(pins, errors) is Some
        },
        Event::WriteFailed { .. } | Event::Written => p is Introducing || p is Joining,
        Event::Listened { .. } => p is Registering,
    }
}

/// What becomes of an attempt to connect, and of the session, once `e` has
/// happened, and what is done next.
pub open spec fn connect_next(p: Phase, s: Session, pins: Pins, e: Event) -> (
    Phase,
    Session,
    Action,
)
    recommends
        can_follow(p, pins, e),
{
    match e {
        Event::Unreachable { reason } => {
            let errors = p->errors;
            let (host, port) = pins.servers[errors.len() as int];
            let (q, a) = dial_on(pins, errors.push(dial_error(host, port, reason)));
            (q, s, a)
        },
        Event::SetupFailed { reason } => (Phase::Done, s, Action::Report(Err(reason))),
        Event::Reached => {
            let (host, port) = pins.servers[p->errors.len() as int];
            (
                Phase::Introducing,
                reached(s, pins, host, port),
                Action::Write { frames: introduction(pins.nick) },
            )
        },
        Event::WriteFailed { reason } => (
            Phase::Done,
            s,
            Action::Report(Err(failed_write(reason))),
        ),
        Event::Written => match p {
            Phase::Joining { report } => (Phase::Done, s, Action::Report(Ok(report))),
            _ => (Phase::Registering, s, Action::Listen),
        },
        Event::Listened { waited } => match registration_of(s, pins, waited > REGISTRATION_TIME) {
            Registration::Wait => (Phase::Registering, s, Action::Sleep),
            Registration::Fail(why) => (Phase::Done, s, Action::Report(Err(why))),
            Registration::Join { frames, report } => (
                Phase::Joining { report },
                s,
                Action::Write { frames },
            ),
        },
    }
}

/// What to do once the given servers have failed.
fn dial_next(pinned: &Pinned, errors: Vec<String>) -> (r: (ConnectPhase, ConnectAction))
    ensures
        (r.0@, r.1@) == dial_on(pinned@, texts(errors@)),
{
    let tried: usize = errors.len();
    if tried < pinned.servers.len() {
        let host = pinned.servers[tried].0.clone();
        let port: u16 = pinned.servers[tried].1;
        assert(pinned@.servers[tried as int] == (host@, port));
        (ConnectPhase::Dialing { errors }, ConnectAction::Dial { host, port })
    } else {
        let report = joined(&errors, "; ");
        (ConnectPhase::Done, ConnectAction::Report(Err(report)))
    }
}

/// How an attempt to connect starts.
pub fn connect_start(pinned: &Pinned) -> (r: (ConnectPhase, ConnectAction))
    ensures
        (r.0@, r.1@) == dial_on(pinned@, Seq::empty()),
{
    let errors: Vec<String> = Vec::new();
    assert(texts(errors@) =~= Seq::empty());
    dial_next(pinned, errors)
}

/// Whether `event` can come of what is done in the phase `phase`.
pub fn follows(phase: &ConnectPhase, pinned: &Pinned, event: &ConnectEvent) -> (r: bool)
    ensures
        r == can_follow(phase@, pinned@, event@),
{
    match event {
        ConnectEvent::Unreachable { .. } | ConnectEvent::SetupFailed { .. }
        | ConnectEvent::Reached => match phase {
            ConnectPhase::Dialing { errors } => errors.len() < pinned.servers.len(),
            _ => false,
        },
        ConnectEvent::WriteFailed { .. } | ConnectEvent::Written => match phase {
            ConnectPhase::Introducing => true,
            ConnectPhase::Joining { .. } => true,
            _ => false,
        },
        ConnectEvent::Listened { .. } => match phase {
            ConnectPhase::Registering => true,
            _ => false,
        },
    }
}

/// Takes note of what has come of the last action of an attempt to connect, and
/// says what to do next.
pub fn connect_step(
    phase: ConnectPhase,
    st: &mut IrcState,
    pinned: &Pinned,
    event: ConnectEvent,
) -> (r: (ConnectPhase, ConnectAction))
    requires
        can_follow(phase@, pinned@, event@),
    ensures
        (r.0@, final(st)@, r.1@) == connect_next(phase@, old(st)@, pinned@, event@),
        old(st)@.wf() ==> final(st)@.wf(),
{
    match event {
        ConnectEvent::Unreachable { reason } => {
            let mut errors = match phase {
                ConnectPhase::Dialing { errors } => errors,
                _ => Vec::new(),
            };
            let tried: usize = errors.len();
            let ghost before = texts(errors@);
            let e = dial_error_text(
                pinned.servers[tried].0.as_str(),
                pinned.servers[tried].1,
                reason.as_str(),
            );
            errors.push(e);
            assert(texts(errors@) =~= before.push(e@));
            dial_next(pinned, errors)
        },
        ConnectEvent::SetupFailed { reason } => (
            ConnectPhase::Done,
            ConnectAction::Report(Err(reason)),
        ),
        ConnectEvent::Reached => {
            let tried: usize = match phase {
                ConnectPhase::Dialing { errors } => errors.len(),
                _ => 0,
            };
            let frames = begin(
                st,
                pinned,
                pinned.servers[tried].0.as_str(),
                pinned.servers[tried].1,
            );
            (ConnectPhase::Introducing, ConnectAction::Write { frames })
        },
        ConnectEvent::WriteFailed { reason } => (
            ConnectPhase::Done,
            ConnectAction::Report(Err(send_failed(reason.as_str()))),
        ),
        ConnectEvent::Written => match phase {
            ConnectPhase::Joining { report } => (
                ConnectPhase::Done,
                ConnectAction::Report(Ok(report)),
            ),
            _ => (ConnectPhase::Registering, ConnectAction::Listen),
        },
        ConnectEvent::Listened { waited } => match registration(st, pinned, waited) {
            RegisterStep::Wait => (ConnectPhase::Registering, ConnectAction::Sleep),
            RegisterStep::Fail(why) => (ConnectPhase::Done, ConnectAction::Report(Err(why))),
            RegisterStep::Join { frames, report } => (
                ConnectPhase::Joining { report },
                ConnectAction::Write { frames },
            ),
        },
    }
}

} // verus!
