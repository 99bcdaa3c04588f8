//! What a reader is shown of a session, letter by letter, and what the session is
//! after it.
use vstd::prelude::*;

use crate::laws::events::with_room;
use crate::state::{IrcState, MAX_EVENTS, MAX_LOG, Session, disconnected, ended, push_bounded};
use crate::text::{decimal, join};
use crate::tools::{
    MAX_WAIT_SECS,
    Receiving,
    RecvStep,
    drained,
    farewell,
    quit_report,
    quitted,
    recv_on,
    status_text,
};

verus! {

/// The last ten lines of a log, or all where there are fewer.
pub open spec fn last_ten(log: Seq<Seq<char>>) -> Seq<Seq<char>> {
    if log.len() <= 10 {
        log
    } else {
        log.subrange(log.len() - 10, log.len() as int)
    }
}

/// The status of a connection names its server and nick, tells whether the server
/// has accepted the nick, and gives the channels, the number of queued events, and
/// the last ten lines of the log. Without a connection it says so.
pub proof fn law_status(s: Session)
    ensures
        !s.connected ==> status_text(s) == "not connected"@,
        s.connected ==> status_text(s) == "connected to "@ + s.server + " as "@ + s.nick + (
        if s.registered {
            " (registered=true), channels: "@
        } else {
            " (registered=false), channels: "@
        }) + (if s.channels.len() == 0 {
            "(none)"@
        } else {
            join(s.channels, " "@)
        }) + ", "@ + decimal(s.messages.len()) + " queued message(s)\nrecent raw log:\n"@ + join(
            last_ten(s.log),
            "\n"@,
        ),
{
    reveal_strlit(" (registered=");
    reveal_strlit("true");
    reveal_strlit("false");
    reveal_strlit("), channels: ");
    reveal_strlit(" (registered=true), channels: ");
    reveal_strlit(" (registered=false), channels: ");
    assert(" (registered="@ + "true"@ + "), channels: "@ =~= " (registered=true), channels: "@);
    assert(" (registered="@ + "false"@ + "), channels: "@ =~= " (registered=false), channels: "@);
    if s.connected {
        let front = "connected to "@ + s.server + " as "@ + s.nick;
        let word = if s.registered {
            "true"@
        } else {
            "false"@
        };
        assert(front + " (registered="@ + word + "), channels: "@ =~= front + (" (registered="@
            + word + "), channels: "@));
        if s.log.len() > 10 {
            assert(last_ten(s.log) =~= s.log.skip(s.log.len() - 10));
        }
    }
}

/// A client that has been accepted and one that has not never show the same
/// status.
pub proof fn law_status_tells_registered(s: Session)
    requires
        s.connected,
    ensures
        status_text(Session { registered: true, ..s }) != status_text(
            Session { registered: false, ..s },
        ),
{
    let yes = Session { registered: true, ..s };
    let no = Session { registered: false, ..s };
    law_status(yes);
    law_status(no);
    reveal_strlit(" (registered=true), channels: ");
    reveal_strlit(" (registered=false), channels: ");
    assert(status_text(yes).len() + 1 == status_text(no).len());
}

/// A reader gets all that is queued, in order, one event on each line, and at
/// once. With nothing queued the reader waits for what is left of the time that
/// they are willing to wait, of which ten minutes count, and then gets word that
/// there is nothing.
pub proof fn law_receiving(s: Session, waited: u128, wait: u128)
    ensures
        ({
            let limit = if wait <= 600_000_000_000 {
                wait as int
            } else {
                600_000_000_000
            };
            &&& s.messages.len() > 0 ==> recv_on(s, waited, wait) == Receiving::Reply(
                join(s.messages, "\n"@),
            )
            &&& s.messages.len() == 0 && waited < limit ==> recv_on(s, waited, wait)
                == Receiving::Wait(limit - waited)
            &&& s.messages.len() == 0 && waited >= limit ==> recv_on(s, waited, wait)
                == Receiving::Reply("(no new messages)"@)
        }),
        MAX_WAIT_SECS == 600,
{
}

/// Receiving takes the events from the queue and changes nothing else.
pub proof fn law_received_is_taken(s: Session)
    ensures
        drained(s).messages.len() == 0,
        drained(s).connection == s.connection && drained(s).connected == s.connected,
        drained(s).registered == s.registered,
        drained(s).nick == s.nick && drained(s).server == s.server,
        drained(s).channels == s.channels && drained(s).log == s.log,
{
}

/// Quitting says farewell to the server, if there is one, and leaves no connection;
/// what is queued and logged stays.
pub proof fn law_quitting(s: Session)
    ensures
        s.connected ==> farewell(s) == Some("QUIT :leaving"@ + "\r\n"@) && quit_report(s)
            == "disconnected"@,
        !s.connected ==> farewell(s) is None && quit_report(s) == "already disconnected"@
            && quitted(s) == s,
        s.connected ==> {
            let t = quitted(s);
            &&& !t.connected && !t.registered
            &&& t.connection == s.connection && t.nick == s.nick && t.server == s.server
            &&& t.channels == s.channels && t.messages == s.messages && t.log == s.log
        },
{
}

/// When the server has gone there is no connection, and the reader is told so after
/// all that was queued; nothing else changes. Of another connection the end changes
/// nothing.
pub proof fn law_server_goes(s: Session, connection: u64)
    ensures
        ({
            let t = ended(s, s.connection);
            &&& !t.connected && !t.registered
            &&& t.messages == s.messages.push("* disconnected from server"@)
            &&& t.connection == s.connection && t.nick == s.nick && t.server == s.server
            &&& t.channels == s.channels && t.log == s.log
            &&& disconnected(s) == t
        }),
        connection != s.connection ==> ended(s, connection) == s,
{
}

/// Five hundred events are queued and a hundred lines logged; the oldest makes room
/// for one more.
pub proof fn law_limits(queue: Seq<Seq<char>>, item: Seq<char>, limit: nat)
    ensures
        push_bounded(queue, item, limit) == with_room(queue, item, limit),
        MAX_EVENTS == 500,
        MAX_LOG == 100,
{
}

/// A client starts with no connection, no name and nothing queued or logged.
pub proof fn law_start()
    ensures
        ({
            let s = Session::initial();
            &&& !s.connected && !s.registered && s.connection == 0
            &&& s.nick.len() == 0 && s.server.len() == 0 && s.channels.len() == 0
            &&& s.messages.len() == 0 && s.log.len() == 0
        }),
{
}

/// A session is what its state holds, field by field.
pub proof fn law_session_of_state(st: IrcState)
    ensures
        st@.connection == st.connection && st@.connected == st.connected,
        st@.registered == st.registered,
        st@.nick == st.nick@ && st@.server == st.server@,
        st@.channels.len() == st.channels@.len(),
        forall|i: int| 0 <= i < st.channels@.len() ==> #[trigger] st@.channels[i] == st.channels@[i]@,
        st@.messages.len() == st.messages@.len(),
        forall|i: int| 0 <= i < st.messages@.len() ==> #[trigger] st@.messages[i] == st.messages@[i]@,
        st@.log.len() == st.log@.len(),
        forall|i: int| 0 <= i < st.log@.len() ==> #[trigger] st@.log[i] == st.log@[i]@,
{
}

/// What is done next about a request for the queued events stands for itself.
pub proof fn law_recv_step_stands_for_itself(r: RecvStep)
    ensures
        match r {
            RecvStep::Wait(rest) => r@ == Receiving::Wait(rest as int),
            RecvStep::Reply(t) => r@ == Receiving::Reply(t@),
        },
{
}

} // verus!
