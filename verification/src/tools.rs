//! The tools on a connection: sending, receiving, its status, and its end.
use vstd::prelude::*;

use crate::pinned::{Pinned, Pins, is_channel, names_channel};
use crate::state::{IrcState, Session, failed_write, frame, send_failed, send_raw};
use crate::text::{
    blank,
    chars_of,
    decimal,
    decimal_of,
    is_blank,
    is_line_end,
    join,
    joined,
    lines,
    lines_of,
    optional,
    same_text,
    texts,
};

verus! {

// ---- sending ------------------------------------------------------------------

/// What cannot stand within a name: a comma parts the names of a list, a space
/// the parts of a line, and the other two end the line.
pub open spec fn ends_name(c: char) -> bool {
    c == ',' || c == ' ' || is_line_end(c)
}

/// A bare nick: the name of no channel, and one name only.
pub open spec fn is_bare(target: Seq<char>) -> bool {
    &&& !is_channel(target)
    &&& forall|i: int| 0 <= i < target.len() ==> !ends_name(#[trigger] target[i])
}

/// Whether `t` is a bare nick.
fn bare(t: &str) -> (r: bool)
    ensures
        r == is_bare(t@),
{
    if names_channel(t) {
        return false;
    }
    let v = chars_of(t);
    let mut i: usize = 0;
    while i < v.len()
        invariant
            v@ == t@,
            i <= v.len(),
            !is_channel(t@),
            forall|j: int| 0 <= j < i ==> !ends_name(#[trigger] t@[j]),
        decreases v.len() - i,
    {
        let c = v[i];
        if c == ',' || c == ' ' || c == '\r' || c == '\n' {
            assert(ends_name(t@[i as int]));
            return false;
        }
        i += 1;
    }
    true
}

/// A target that may be written to: a pinned channel or a bare nick.
pub open spec fn is_reachable(pins: Pins, target: Seq<char>) -> bool {
    pins.channels.contains(target) || is_bare(target)
}

/// The target of a message: the one given, else the first pinned channel.
pub open spec fn target_of(pins: Pins, target: Option<Seq<char>>) -> Seq<char> {
    match target {
        Some(t) => t,
        None => pins.channels[0],
    }
}

/// The lines of a message that are sent: those with more than white space.
pub open spec fn sent_lines(message: Seq<char>) -> Seq<Seq<char>> {
    lines(message).filter(|l: Seq<char>| !is_blank(l))
}

/// What goes over the wire for one line of a message.
pub open spec fn privmsg(target: Seq<char>, line: Seq<char>) -> Seq<char> {
    frame("PRIVMSG "@ + target + " :"@ + line)
}

/// What goes over the wire for a message, in order.
pub open spec fn privmsgs(target: Seq<char>, message: Seq<char>) -> Seq<Seq<char>> {
    sent_lines(message).map_values(|l: Seq<char>| privmsg(target, l))
}

/// What is reported once `n` lines have been sent.
pub open spec fn sent_report(n: nat, target: Seq<char>) -> Seq<char> {
    "sent "@ + decimal(n) + " line(s) to "@ + target
}

/// What is written for a message and then reported, or why it is not sent.
pub open spec fn send_outcome(
    s: Session,
    pins: Pins,
    target: Option<Seq<char>>,
    message: Option<Seq<char>>,
) -> Result<(Seq<Seq<char>>, Seq<char>), Seq<char>> {
    let t = target_of(pins, target);
    if !is_reachable(pins, t) {
        Err(
            "target '"@ + t + "' is not a pinned channel (allowed: "@ + join(pins.channels, " "@)
                + ")"@,
        )
    } else {
        match message {
            None => Err("missing 'message'"@),
            Some(m) => if sent_lines(m).len() > 0 && !s.connected {
                Err("not connected"@)
            } else {
                Ok((privmsgs(t, m), sent_report(sent_lines(m).len(), t)))
            },
        }
    }
}

/// What to write for a message, in order, and what to report once all of it is
/// written.
pub struct SendPlan {
    pub frames: Vec<String>,
    pub report: String,
}

/// Whether `items` holds the text `t`.
fn holds(items: &Vec<String>, t: &str) -> (r: bool)
    ensures
        r == texts(items@).contains(t@),
{
    let mut i: usize = 0;
    while i < items.len()
        invariant
            i <= items.len(),
            forall|j: int| 0 <= j < i ==> texts(items@)[j] != t@,
        decreases items.len() - i,
    {
        if same_text(items[i].as_str(), t) {
            assert(texts(items@)[i as int] == t@);
            return true;
        }
        i += 1;
    }
    false
}

/// What to do to send `message` to `target`.
pub fn tool_send(
    st: &IrcState,
    pinned: &Pinned,
    target: Option<&str>,
    message: Option<&str>,
) -> (r: Result<SendPlan, String>)
    requires
        target is None ==> pinned@.channels.len() > 0,
    ensures
        match send_outcome(st@, pinned@, optional(target), optional(message)) {
            Ok((frames, report)) => r matches Ok(plan) && texts(plan.frames@) == frames
                && plan.report@ == report,
            Err(e) => r matches Err(x) && x@ == e,
        },
{
    let t = match target {
        Some(t) => t,
        None => pinned.channels[0].as_str(),
    };
    if !holds(&pinned.channels, t) && !bare(t) {
        return Err(
            "target '".to_owned().concat(t).concat("' is not a pinned channel (allowed: ").concat(
                joined(&pinned.channels, " ").as_str(),
            ).concat(")"),
        );
    }
    let m = match message {
        Some(m) => m,
        None => {
            return Err("missing 'message'".to_owned());
        },
    };
    let all = lines_of(m);
    let ghost pred = |l: Seq<char>| !is_blank(l);
    let ghost wire = |l: Seq<char>| privmsg(t@, l);
    let mut frames: Vec<String> = Vec::new();
    let mut i: usize = 0;
    proof {
        reveal(Seq::filter);
    }
    assert(texts(all@).take(0).filter(pred).map_values(wire) =~= texts(frames@));
    while i < all.len()
        invariant
            i <= all.len(),
            texts(all@) == lines(m@),
            t@ == target_of(pinned@, optional(target)),
            is_reachable(pinned@, t@),
            message == Some(m),
            pred == (|l: Seq<char>| !is_blank(l)),
            wire == (|l: Seq<char>| privmsg(t@, l)),
            texts(frames@) == texts(all@).take(i as int).filter(pred).map_values(wire),
            frames.len() > 0 ==> st.connected,
        decreases all.len() - i,
    {
        let ghost kept = texts(all@).take(i as int).filter(pred);
        let ghost done = texts(frames@);
        let line = all[i].as_str();
        proof {
            reveal(Seq::filter);
            assert(texts(all@).take(i + 1).drop_last() =~= texts(all@).take(i as int));
            assert(texts(all@).take(i + 1).last() == line@);
        }
        if !blank(line) {
            let text = "PRIVMSG ".to_owned().concat(t).concat(" :").concat(line);
            match send_raw(st, text.as_str()) {
                Ok(f) => {
                    frames.push(f);
                    assert(texts(frames@) =~= done.push(wire(line@)));
                    assert(kept.push(line@).map_values(wire) =~= done.push(wire(line@)));
                },
                Err(e) => {
                    proof {
                        assert(pred(texts(all@)[i as int]));
                        texts(all@).lemma_filter_contains(pred, i as int);
                    }
                    return Err(e);
                },
            }
        }
        i += 1;
    }
    assert(texts(all@).take(i as int) =~= lines(m@));
    let n: usize = frames.len();
    assert(texts(frames@).len() == sent_lines(m@).len());
    let report = "sent ".to_owned().concat(decimal_of(n).as_str()).concat(" line(s) to ").concat(t);
    Ok(SendPlan { frames, report })
}

/// What is done next about a message of which so many frames are written, after
/// a write that failed if one has: the frame after them is written, or the end of
/// the matter is reported. A write that fails is the end of it.
pub open spec fn send_on(
    frames: Seq<Seq<char>>,
    report: Seq<char>,
    written: nat,
    failed: Option<Seq<char>>,
) -> Sending {
    match failed {
        Some(reason) => Sending::Report(Err(failed_write(reason))),
        None => if written < frames.len() {
            Sending::Write(frames[written as int])
        } else {
            Sending::Report(Ok(report))
        },
    }
}

/// What a `SendStep` stands for.
pub enum Sending {
    Write(Seq<char>),
    Report(Result<Seq<char>, Seq<char>>),
}

/// What to do next about a message.
pub enum SendStep {
    /// Write this.
    Write(String),
    /// Report this; the matter is over.
    Report(Result<String, String>),
}

impl View for SendStep {
    type V = Sending;

    open spec fn view(&self) -> Sending {
        match *self {
            SendStep::Write(f) => Sending::Write(f@),
            SendStep::Report(Ok(t)) => Sending::Report(Ok(t@)),
            SendStep::Report(Err(e)) => Sending::Report(Err(e@)),
        }
    }
}

/// What to do next about a message once `written` frames of its plan are written
/// and, where one could not be, for what reason.
pub fn send_next(plan: &SendPlan, written: usize, failed: Option<&str>) -> (r: SendStep)
    ensures
        r@ == send_on(texts(plan.frames@), plan.report@, written as nat, optional(failed)),
{
    match failed {
        Some(reason) => SendStep::Report(Err(send_failed(reason))),
        None => if written < plan.frames.len() {
            SendStep::Write(plan.frames[written].clone())
        } else {
            SendStep::Report(Ok(plan.report.clone()))
        },
    }
}

// ---- receiving ----------------------------------------------------------------

/// What is replied to a request for the queued events: all of them in order, one
/// on each line. Where there are none the request waits for as long as there is
/// time left, and has no reply yet.
pub open spec fn recv_reply(s: Session, time_left: bool) -> Option<Seq<char>> {
    if s.messages.len() > 0 {
        Some(join(s.messages, "\n"@))
    } else if time_left {
        None
    } else {
        Some("(no new messages)"@)
    }
}

/// The session without its queued events.
pub open spec fn drained(s: Session) -> Session {
    Session { messages: Seq::empty(), ..s }
}

/// What to do next about a request for the queued events.
pub enum RecvStep {
    /// Wait for the next event, but no longer than this, and ask again.
    Wait(u128),
    /// Reply with this text.
    Reply(String),
}

/// The reader waits for no longer than as many seconds.
pub const MAX_WAIT_SECS: u32 = 600;

/// How long a reader waits who is willing to wait for `wait`, in nanoseconds.
pub open spec fn patience(wait: u128) -> int {
    if wait < MAX_WAIT_SECS * 1_000_000_000 {
        wait as int
    } else {
        MAX_WAIT_SECS * 1_000_000_000
    }
}

/// What a `RecvStep` stands for.
pub enum Receiving {
    Wait(int),
    Reply(Seq<char>),
}

impl View for RecvStep {
    type V = Receiving;

    open spec fn view(&self) -> Receiving {
        match *self {
            RecvStep::Wait(rest) => Receiving::Wait(rest as int),
            RecvStep::Reply(t) => Receiving::Reply(t@),
        }
    }
}

/// What is done next about a request for the queued events by a reader who has
/// waited for `waited` and is willing to wait for `wait` in all.
pub open spec fn recv_on(s: Session, waited: u128, wait: u128) -> Receiving {
    match recv_reply(s, waited < patience(wait)) {
        Some(t) => Receiving::Reply(t),
        None => Receiving::Wait(patience(wait) - waited),
    }
}

/// Takes the queued events for the reader, who has waited for `waited` and is
/// willing to wait for `wait` in all, of which no more than the longest time
/// counts. Times are in nanoseconds.
pub fn tool_recv(st: &mut IrcState, waited: u128, wait: u128) -> (r: RecvStep)
    ensures
        final(st)@ == drained(old(st)@),
        r@ == recv_on(old(st)@, waited, wait),
{
    let most: u128 = MAX_WAIT_SECS as u128 * 1_000_000_000;
    let limit: u128 = if wait < most {
        wait
    } else {
        most
    };
    if st.messages.len() == 0 {
        assert(st@ =~= drained(st@));
        if waited < limit {
            return RecvStep::Wait(limit - waited);
        }
        return RecvStep::Reply("(no new messages)".to_owned());
    }
    let ghost queued = st@.messages;
    let mut out: Vec<String> = Vec::new();
    let ghost start = st@;
    assert(texts(out@) + st@.messages =~= queued);
    while st.messages.len() > 0
        invariant
            texts(out@) + st@.messages == queued,
            st@ == (Session { messages: st@.messages, ..start }),
        decreases st.messages.len(),
    {
        let ghost left = st@.messages;
        let ghost taken = texts(out@);
        match st.messages.pop_front() {
            Some(m) => {
                out.push(m);
                assert(texts(out@) =~= taken.push(left[0]));
                assert(st@.messages =~= left.skip(1));
                assert(taken.push(left[0]) + left.skip(1) =~= taken + left);
            },
            None => {},
        }
    }
    assert(st@.messages =~= Seq::<Seq<char>>::empty());
    assert(texts(out@) =~= queued);
    RecvStep::Reply(joined(&out, "\n"))
}

// ---- status -------------------------------------------------------------------

/// As many lines of the log are shown.
pub const SHOWN_LOG: usize = 10;

/// The last `n` items of a row, or all where there are fewer.
pub open spec fn last_of(items: Seq<Seq<char>>, n: nat) -> Seq<Seq<char>> {
    if items.len() > n {
        items.skip(items.len() - n)
    } else {
        items
    }
}

/// What is reported of a session.
pub open spec fn status_text(s: Session) -> Seq<char> {
    if !s.connected {
        "not connected"@
    } else {
        let registered = if s.registered {
            "true"@
        } else {
            "false"@
        };
        let channels = if s.channels.len() == 0 {
            "(none)"@
        } else {
            join(s.channels, " "@)
        };
        "connected to "@ + s.server + " as "@ + s.nick + " (registered="@ + registered
            + "), channels: "@ + channels + ", "@ + decimal(s.messages.len())
            + " queued message(s)\nrecent raw log:\n"@ + join(
            last_of(s.log, SHOWN_LOG as nat),
            "\n"@,
        )
    }
}

/// The state of the connection, and the last lines from the server.
pub fn tool_status(st: &IrcState) -> (r: String)
    ensures
        r@ == status_text(st@),
{
    if !st.connected {
        return "not connected".to_owned();
    }
    let registered = if st.registered {
        "true"
    } else {
        "false"
    };
    let channels = if st.channels.len() == 0 {
        "(none)".to_owned()
    } else {
        joined(&st.channels, " ")
    };
    let first: usize = if st.log.len() > SHOWN_LOG {
        st.log.len() - SHOWN_LOG
    } else {
        0
    };
    let mut recent: Vec<String> = Vec::new();
    let mut i: usize = first;
    while i < st.log.len()
        invariant
            first <= i <= st.log.len(),
            texts(recent@) == st@.log.subrange(first as int, i as int),
        decreases st.log.len() - i,
    {
        let ghost done = texts(recent@);
        recent.push(st.log[i].clone());
        assert(texts(recent@) =~= done.push(st@.log[i as int]));
        assert(st@.log.subrange(first as int, i + 1) =~= done.push(st@.log[i as int]));
        i += 1;
    }
    assert(texts(recent@) =~= last_of(st@.log, SHOWN_LOG as nat));
    let count: usize = st.messages.len();
    "connected to ".to_owned().concat(st.server.as_str()).concat(" as ").concat(
        st.nick.as_str(),
    ).concat(" (registered=").concat(registered).concat("), channels: ").concat(
        channels.as_str(),
    ).concat(", ").concat(decimal_of(count).as_str()).concat(
        " queued message(s)\nrecent raw log:\n",
    ).concat(joined(&recent, "\n").as_str())
}

// ---- quitting -----------------------------------------------------------------

/// The session once the reader has ended the connection.
pub open spec fn quitted(s: Session) -> Session {
    if s.connected {
        Session { connected: false, registered: false, ..s }
    } else {
        s
    }
}

/// What is written to end the connection, if there is one.
pub open spec fn farewell(s: Session) -> Option<Seq<char>> {
    if s.connected {
        Some(frame("QUIT :leaving"@))
    } else {
        None
    }
}

/// What is reported of the end of the connection.
pub open spec fn quit_report(s: Session) -> Seq<char> {
    if s.connected {
        "disconnected"@
    } else {
        "already disconnected"@
    }
}

/// What to write to end a connection, if there is one, and what to report. It is
/// of no consequence whether the write succeeds.
pub struct QuitPlan {
    pub farewell: Option<String>,
    pub report: String,
}

/// Ends the connection.
pub fn tool_quit(st: &mut IrcState) -> (r: QuitPlan)
    ensures
        final(st)@ == quitted(old(st)@),
        match r.farewell {
            Some(f) => farewell(old(st)@) == Some(f@),
            None => farewell(old(st)@) is None,
        },
        r.report@ == quit_report(old(st)@),
{
    match send_raw(st, "QUIT :leaving") {
        Err(_) => QuitPlan { farewell: None, report: "already disconnected".to_owned() },
        Ok(f) => {
            st.connected = false;
            st.registered = false;
            QuitPlan { farewell: Some(f), report: "disconnected".to_owned() }
        },
    }
}

} // verus!
