//! What an attempt to connect does and reports, letter by letter.
use vstd::prelude::*;

use crate::connect::{
    Action,
    ConnectAction,
    ConnectEvent,
    ConnectPhase,
    Event,
    Phase,
    REGISTRATION_POLL_MILLIS,
    REGISTRATION_TIME,
    RegisterStep,
    Registration,
    can_follow,
    connect_next,
    dial_on,
    registration_of,
};
use crate::pinned::Pins;
use crate::state::Session;
use crate::text::{decimal, join};

verus! {

/// The server that is dialed once so many have failed is the one pinned after
/// them. Once all have failed, what went wrong is reported, in order.
pub proof fn law_dialing(pins: Pins, errors: Seq<Seq<char>>)
    ensures
        errors.len() < pins.servers.len() ==> dial_on(pins, errors) == (
            Phase::Dialing { errors },
            Action::Dial {
                host: pins.servers[errors.len() as int].0,
                port: pins.servers[errors.len() as int].1,
            },
        ),
        errors.len() >= pins.servers.len() ==> dial_on(pins, errors) == (
            Phase::Done,
            Action::Report(Err(join(errors, "; "@))),
        ),
{
}

/// A server that cannot be reached is noted by its name, its port and the reason,
/// and the next is dialed. The session does not change.
pub proof fn law_unreachable(
    s: Session,
    pins: Pins,
    errors: Seq<Seq<char>>,
    reason: Seq<char>,
)
    requires
        errors.len() < pins.servers.len(),
    ensures
        ({
            let (host, port) = pins.servers[errors.len() as int];
            let noted = errors.push(
                "connect "@ + host + ":"@ + decimal(port as nat) + " failed: "@ + reason,
            );
            let (p, t, a) = connect_next(
                Phase::Dialing { errors },
                s,
                pins,
                Event::Unreachable { reason },
            );
            &&& (p, a) == dial_on(pins, noted)
            &&& t == s
        }),
{
}

/// Once a server is reached the client introduces itself by the pinned nick, in
/// exactly two lines, and the session is that of a new connection.
pub proof fn law_introduction(s: Session, pins: Pins, errors: Seq<Seq<char>>)
    requires
        errors.len() < pins.servers.len(),
    ensures
        ({
            let (host, port) = pins.servers[errors.len() as int];
            let (p, t, a) = connect_next(Phase::Dialing { errors }, s, pins, Event::Reached);
            &&& p == Phase::Introducing
            &&& a matches Action::Write { frames } && frames.len() == 2 && frames[0] == "NICK "@
                + pins.nick + "\r\n"@ && frames[1] == "USER "@ + pins.nick + " 0 * :"@ + pins.nick
                + " (mcp-irc-client)"@ + "\r\n"@
            &&& t.connected && !t.registered && t.messages.len() == 0
            &&& t.nick == pins.nick && t.channels == pins.channels
            &&& t.server == host + ":"@ + decimal(port as nat)
            &&& t.log == s.log
            &&& s.connection < u64::MAX ==> t.connection == s.connection + 1
        }),
{
}

/// Clients with different nicks introduce themselves differently, line for line.
pub proof fn law_nicks_are_told_apart(
    s: Session,
    pins: Pins,
    others: Pins,
    errors: Seq<Seq<char>>,
)
    requires
        errors.len() < pins.servers.len(),
        errors.len() < others.servers.len(),
        pins.nick != others.nick,
    ensures
        ({
            let p = Phase::Dialing { errors };
            connect_next(p, s, pins, Event::Reached).2 matches Action::Write { frames }
                && connect_next(p, s, others, Event::Reached).2 matches Action::Write {
                frames: theirs,
            } && frames[0] != theirs[0] && frames[1] != theirs[1]
        }),
{
    law_introduction(s, pins, errors);
    law_introduction(s, others, errors);
    reveal_strlit("NICK ");
    reveal_strlit("USER ");
    reveal_strlit(" 0 * :");
    reveal_strlit(" (mcp-irc-client)");
    reveal_strlit("\r\n");
    let a = pins.nick;
    let b = others.nick;
    let f = "NICK "@ + a + "\r\n"@;
    let g = "NICK "@ + b + "\r\n"@;
    assert(f.subrange(5, f.len() - 2) =~= a);
    assert(g.subrange(5, g.len() - 2) =~= b);
    let tail = " (mcp-irc-client)"@ + "\r\n"@;
    let u = "USER "@ + a + " 0 * :"@ + a + " (mcp-irc-client)"@ + "\r\n"@;
    let v = "USER "@ + b + " 0 * :"@ + b + " (mcp-irc-client)"@ + "\r\n"@;
    assert(u.len() == 2 * a.len() + 11 + tail.len());
    assert(v.len() == 2 * b.len() + 11 + tail.len());
    if u == v {
        assert(a.len() == b.len());
        assert(u.subrange(5, 5 + a.len() as int) =~= a);
        assert(v.subrange(5, 5 + b.len() as int) =~= b);
    }
}

/// What follows a write: the client listens once it has introduced itself, and has
/// what it was to report once it has joined. Whatever could not be written, and a
/// server that cannot be read from, ends the attempt with the reason. The session
/// does not change.
pub proof fn law_after_a_write(
    s: Session,
    pins: Pins,
    p: Phase,
    report: Seq<char>,
    reason: Seq<char>,
)
    ensures
        connect_next(Phase::Introducing, s, pins, Event::Written) == (
            Phase::Registering,
            s,
            Action::Listen,
        ),
        connect_next(Phase::Joining { report }, s, pins, Event::Written) == (
            Phase::Done,
            s,
            Action::Report(Ok(report)),
        ),
        connect_next(p, s, pins, Event::WriteFailed { reason }) == (
            Phase::Done,
            s,
            Action::Report(Err("send failed: "@ + reason)),
        ),
        connect_next(p, s, pins, Event::SetupFailed { reason }) == (
            Phase::Done,
            s,
            Action::Report(Err(reason)),
        ),
{
}

/// The server has ten seconds to accept the nick. Once it has, every pinned
/// channel is joined, in order, and the server, the nick and the channels are
/// reported; until it has, the client waits while there is a connection and time.
pub proof fn law_registering(s: Session, pins: Pins, waited: u128)
    ensures
        ({
            let (p, t, a) = connect_next(Phase::Registering, s, pins, Event::Listened { waited });
            let report = "connected to "@ + s.server + " as "@ + pins.nick + if pins.channels.len()
                == 0 {
                ""@
            } else {
                ", joined "@ + join(pins.channels, " "@)
            };
            &&& t == s
            &&& s.registered && (s.connected || pins.channels.len() == 0) ==> {
                &&& p == (Phase::Joining { report })
                &&& a matches Action::Write { frames } && frames.len() == pins.channels.len()
                    && forall|i: int|
                    0 <= i < frames.len() ==> #[trigger] frames[i] == "JOIN "@ + pins.channels[i]
                        + "\r\n"@
            }
            &&& s.registered && !s.connected && pins.channels.len() > 0 ==> (p, a) == (
                Phase::Done,
                Action::Report(Err("not connected"@)),
            )
            &&& !s.registered && !s.connected ==> (p, a) == (
                Phase::Done,
                Action::Report(Err("server closed the connection during registration"@)),
            )
            &&& !s.registered && s.connected && waited > 10_000_000_000 ==> (p, a) == (
                Phase::Done,
                Action::Report(Err("timed out waiting for IRC registration (001)"@)),
            )
            &&& !s.registered && s.connected && waited <= 10_000_000_000 ==> (p, a) == (
                Phase::Registering,
                Action::Sleep,
            )
        }),
{
}

/// An attempt that goes well, from the first server that is reached to the report:
/// the servers before it were dialed, it is told the nick and the channels, and
/// the report names it.
pub proof fn law_connecting(s: Session, pins: Pins, errors: Seq<Seq<char>>, waited: u128)
    requires
        errors.len() < pins.servers.len(),
        pins.channels.len() > 0,
    ensures
        ({
            let (host, port) = pins.servers[errors.len() as int];
            let reached = connect_next(Phase::Dialing { errors }, s, pins, Event::Reached);
            let listening = connect_next(reached.0, reached.1, pins, Event::Written);
            let welcomed = Session { registered: true, ..listening.1 };
            let joining = connect_next(listening.0, welcomed, pins, Event::Listened { waited });
            let done = connect_next(joining.0, joining.1, pins, Event::Written);
            &&& listening.2 == Action::Listen
            &&& joining.2 is Write
            &&& done == (
                Phase::Done,
                welcomed,
                Action::Report(
                    Ok(
                        "connected to "@ + (host + ":"@ + decimal(port as nat)) + " as "@
                            + pins.nick + (", joined "@ + join(pins.channels, " "@)),
                    ),
                ),
            )
        }),
{
}

/// What can come of what is done: a server that is dialed is reached or not, what
/// is written is written or not, and listening goes on for some time.
pub proof fn law_what_can_follow(p: Phase, pins: Pins, reason: Seq<char>, waited: u128)
    ensures
        ({
            let dialing = p matches Phase::Dialing { errors } && errors.len() < pins.servers.len();
            let writing = p is Introducing || p is Joining;
            &&& can_follow(p, pins, Event::Reached) == dialing
            &&& can_follow(p, pins, Event::Unreachable { reason }) == dialing
            &&& can_follow(p, pins, Event::SetupFailed { reason }) == dialing
            &&& can_follow(p, pins, Event::Written) == writing
            &&& can_follow(p, pins, Event::WriteFailed { reason }) == writing
            &&& can_follow(p, pins, Event::Listened { waited }) == (p is Registering)
        }),
{
}

/// The phases, the events and the actions of an attempt stand for themselves.
pub proof fn law_attempt_stands_for_itself(p: ConnectPhase, e: ConnectEvent, a: ConnectAction)
    ensures
        match p {
            ConnectPhase::Dialing { errors } => p@ matches Phase::Dialing { errors: noted }
                && noted.len() == errors@.len() && forall|i: int|
                0 <= i < errors@.len() ==> #[trigger] noted[i] == errors@[i]@,
            ConnectPhase::Introducing => p@ == Phase::Introducing,
            ConnectPhase::Registering => p@ == Phase::Registering,
            ConnectPhase::Joining { report } => p@ == (Phase::Joining { report: report@ }),
            ConnectPhase::Done => p@ == Phase::Done,
        },
        match e {
            ConnectEvent::Unreachable { reason } => e@ == (Event::Unreachable { reason: reason@ }),
            ConnectEvent::SetupFailed { reason } => e@ == (Event::SetupFailed { reason: reason@ }),
            ConnectEvent::Reached => e@ == Event::Reached,
            ConnectEvent::WriteFailed { reason } => e@ == (Event::WriteFailed { reason: reason@ }),
            ConnectEvent::Written => e@ == Event::Written,
            ConnectEvent::Listened { waited } => e@ == (Event::Listened { waited }),
        },
        match a {
            ConnectAction::Dial { host, port } => a@ == (Action::Dial { host: host@, port }),
            ConnectAction::Write { frames } => a@ matches Action::Write { frames: texts }
                && texts.len() == frames@.len() && forall|i: int|
                0 <= i < frames@.len() ==> #[trigger] texts[i] == frames@[i]@,
            ConnectAction::Listen => a@ == Action::Listen,
            ConnectAction::Sleep => a@ == Action::Sleep,
            ConnectAction::Report(Ok(t)) => a@ == Action::Report(Ok(t@)),
            ConnectAction::Report(Err(t)) => a@ == Action::Report(Err(t@)),
        },
{
}

/// Whether the nick has been accepted is asked by the same rule outside an attempt.
pub proof fn law_registration_of_attempt(s: Session, pins: Pins, waited: u128)
    ensures
        ({
            let (p, t, a) = connect_next(Phase::Registering, s, pins, Event::Listened { waited });
            match registration_of(s, pins, waited > 10_000_000_000) {
                Registration::Wait => p == Phase::Registering && a == Action::Sleep,
                Registration::Fail(why) => p == Phase::Done && a == Action::Report(Err(why)),
                Registration::Join { frames, report } => p == (Phase::Joining { report }) && a == (
                Action::Write { frames }),
            }
        }),
        REGISTRATION_TIME == 10_000_000_000,
        REGISTRATION_POLL_MILLIS == 100,
{
}

/// What is done next about the nick stands for itself.
pub proof fn law_register_step_stands_for_itself(r: RegisterStep)
    ensures
        match r {
            RegisterStep::Wait => r@ == Registration::Wait,
            RegisterStep::Fail(e) => r@ == Registration::Fail(e@),
            RegisterStep::Join { frames, report } => r@ matches Registration::Join {
                frames: texts,
                report: t,
            } && t == report@ && texts.len() == frames@.len() && forall|i: int|
                0 <= i < frames@.len() ==> #[trigger] texts[i] == frames@[i]@,
        },
{
}

} // verus!
