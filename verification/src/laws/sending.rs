//! What goes over the wire for a message, letter by letter.
use vstd::prelude::*;

use crate::laws::session::{
    is_break,
    law_sent_lines,
    lemma_sent_of_joined,
    lemma_sent_of_one,
    lemma_sent_of_two,
};
use crate::pinned::Pins;
use crate::state::{Session, failed_write, to_write};
use crate::text::{decimal, is_blank, is_line_end, is_one_line, join, lines};
use crate::tools::{SendStep, Sending, ends_name, is_bare, is_reachable, send_on, send_outcome, sent_lines};

verus! {

/// The target that is meant: the one given, else the first pinned channel.
pub open spec fn meant(pins: Pins, target: Option<Seq<char>>) -> Seq<char> {
    match target {
        Some(t) => t,
        None => pins.channels[0],
    }
}

/// A pinned channel, or one name that starts with neither sign of a channel.
pub open spec fn may_reach(pins: Pins, t: Seq<char>) -> bool {
    ||| pins.channels.contains(t)
    ||| {
        &&& t.len() > 0 ==> t[0] != '#' && t[0] != '&'
        &&& !t.contains(',') && !t.contains(' ') && !t.contains('\r') && !t.contains('\n')
    }
}

/// What can be reached are the pinned channels and the names of no channel.
proof fn lemma_reach(pins: Pins, t: Seq<char>)
    ensures
        is_reachable(pins, t) == may_reach(pins, t),
{
    if may_reach(pins, t) && !pins.channels.contains(t) {
        assert forall|i: int| 0 <= i < t.len() implies !ends_name(#[trigger] t[i]) by {
            assert(t.contains(t[i]));
        }
    }
    if is_bare(t) {
        assert forall|i: int| 0 <= i < t.len() implies t[i] != ',' && t[i] != ' ' && t[i] != '\r'
            && t[i] != '\n' by {
            assert(!ends_name(t[i]));
        }
    }
}

/// A text without either end of a line.
proof fn lemma_one_line(l: Seq<char>)
    ensures
        is_one_line(l) <==> !l.contains('\r') && !l.contains('\n'),
{
    if !l.contains('\r') && !l.contains('\n') {
        assert forall|i: int| 0 <= i < l.len() implies !is_line_end(#[trigger] l[i]) by {
            assert(l.contains(l[i]));
        }
    }
    if is_one_line(l) {
        assert forall|i: int| 0 <= i < l.len() implies l[i] != '\r' && l[i] != '\n' by {
            assert(!is_line_end(l[i]));
        }
    }
}

/// Nobody but a pinned channel or a bare name is written to, whatever the message.
/// Then a message must be given, and there must be a connection if there is
/// anything to send. Whatever is refused is refused for the first of these that
/// fails, and all else is sent.
pub proof fn law_send_refusals(
    s: Session,
    pins: Pins,
    target: Option<Seq<char>>,
    message: Option<Seq<char>>,
)
    ensures
        ({
            let t = meant(pins, target);
            let r = send_outcome(s, pins, target, message);
            &&& !may_reach(pins, t) ==> r == (Err::<(Seq<Seq<char>>, Seq<char>), Seq<char>>(
                "target '"@ + t + "' is not a pinned channel (allowed: "@ + join(
                    pins.channels,
                    " "@,
                ) + ")"@,
            ))
            &&& may_reach(pins, t) && message is None ==> r == (Err::<
                (Seq<Seq<char>>, Seq<char>),
                Seq<char>,
            >("missing 'message'"@))
            &&& message matches Some(m) ==> may_reach(pins, t) && !s.connected && !all_blank(m)
                ==> r == (Err::<(Seq<Seq<char>>, Seq<char>), Seq<char>>("not connected"@))
            &&& message matches Some(m) ==> may_reach(pins, t) && (s.connected || all_blank(m))
                ==> r is Ok
        }),
{
    lemma_reach(pins, meant(pins, target));
    match message {
        Some(m) => {
            lemma_sent_unless_blank(m);
        },
        None => {},
    }
}

/// A message of which no line is sent: each of its lines is blank.
pub open spec fn all_blank(m: Seq<char>) -> bool {
    forall|i: int| 0 <= i < lines(m).len() ==> is_blank(#[trigger] lines(m)[i])
}

/// Of such a message, and of no other, no line is sent.
proof fn lemma_sent_unless_blank(m: Seq<char>)
    ensures
        sent_lines(m).len() == 0 <==> all_blank(m),
{
    let pred = |l: Seq<char>| !is_blank(l);
    if sent_lines(m).len() > 0 {
        law_sent_lines(m);
        let l = sent_lines(m)[0];
        assert(!is_blank(l) && lines(m).contains(l));
        let i = choose|i: int| 0 <= i < lines(m).len() && lines(m)[i] == l;
        assert(!is_blank(lines(m)[i]));
    }
    if !all_blank(m) {
        let i = choose|i: int| 0 <= i < lines(m).len() && !is_blank(#[trigger] lines(m)[i]);
        lines(m).lemma_filter_contains(pred, i);
        assert(sent_lines(m).contains(lines(m)[i]));
    }
}

/// A message of one line that is not blank goes out whole, to the target that is
/// meant, and is the one line that is reported. One that is blank does not go out.
pub proof fn law_one_line_is_sent_whole(
    s: Session,
    pins: Pins,
    target: Option<Seq<char>>,
    l: Seq<char>,
)
    requires
        s.connected,
        may_reach(pins, meant(pins, target)),
        !l.contains('\r') && !l.contains('\n'),
    ensures
        ({
            let t = meant(pins, target);
            send_outcome(s, pins, target, Some(l)) == (Ok::<
                (Seq<Seq<char>>, Seq<char>),
                Seq<char>,
            >(
                if is_blank(l) {
                    (Seq::empty(), "sent "@ + seq!['0'] + " line(s) to "@ + t)
                } else {
                    (
                        seq!["PRIVMSG "@ + t + " :"@ + l + "\r\n"@],
                        "sent "@ + seq!['1'] + " line(s) to "@ + t,
                    )
                },
            ))
        }),
{
    let t = meant(pins, target);
    lemma_reach(pins, t);
    lemma_one_line(l);
    lemma_sent_of_one(l);
    match send_outcome(s, pins, target, Some(l)) {
        Ok((frames, report)) => {
            assert(decimal(0) =~= seq!['0'] && decimal(1) =~= seq!['1']);
            if is_blank(l) {
                assert(frames =~= Seq::empty());
            } else {
                assert(frames =~= seq!["PRIVMSG "@ + t + " :"@ + l + "\r\n"@]);
            }
        },
        Err(_) => {},
    }
}

/// A message whose lines are parted goes out as its lines do, whichever way they
/// are parted: each whole, each by itself, in order, and as many are reported.
pub proof fn law_lines_are_sent_whole(
    s: Session,
    pins: Pins,
    target: Option<Seq<char>>,
    parts: Seq<Seq<char>>,
    sep: Seq<char>,
)
    requires
        s.connected,
        may_reach(pins, meant(pins, target)),
        sep == seq!['\n'] || sep == seq!['\r', '\n'] || sep == seq!['\r'],
        forall|i: int|
            0 <= i < parts.len() ==> !is_blank(#[trigger] parts[i]) && !parts[i].contains('\r')
                && !parts[i].contains('\n'),
    ensures
        send_outcome(s, pins, target, Some(join(parts, sep))) matches Ok((frames, report)) && {
            let t = meant(pins, target);
            &&& frames.len() == parts.len()
            &&& forall|i: int|
                0 <= i < parts.len() ==> #[trigger] frames[i] == "PRIVMSG "@ + t + " :"@ + parts[i]
                    + "\r\n"@
            &&& report == "sent "@ + decimal(parts.len()) + " line(s) to "@ + t
        },
{
    lemma_reach(pins, meant(pins, target));
    assert forall|i: int| 0 <= i < parts.len() implies !is_blank(#[trigger] parts[i])
        && is_one_line(parts[i]) by {
        lemma_one_line(parts[i]);
    }
    assert(is_break(sep));
    lemma_sent_of_joined(parts, sep);
}

/// Two messages with the end of a line between them go out as the first and then
/// the second, whatever their lines.
pub proof fn law_two_messages_in_one(
    s: Session,
    pins: Pins,
    target: Option<Seq<char>>,
    a: Seq<char>,
    end: char,
    b: Seq<char>,
)
    requires
        s.connected,
        may_reach(pins, meant(pins, target)),
        end == '\r' || end == '\n',
    ensures
        send_outcome(s, pins, target, Some(a)) matches Ok((first, _)) && send_outcome(
            s,
            pins,
            target,
            Some(b),
        ) matches Ok((second, _)) && send_outcome(
            s,
            pins,
            target,
            Some(a + seq![end] + b),
        ) matches Ok((both, report)) && both == first + second && report == "sent "@ + decimal(
            both.len(),
        ) + " line(s) to "@ + meant(pins, target),
{
    lemma_reach(pins, meant(pins, target));
    lemma_sent_of_two(a, end, b);
    let whole = send_outcome(s, pins, target, Some(a + seq![end] + b))->Ok_0.0;
    assert(whole =~= send_outcome(s, pins, target, Some(a))->Ok_0.0 + send_outcome(
        s,
        pins,
        target,
        Some(b),
    )->Ok_0.0);
}

/// Different lines, and different targets, go out differently: a frame tells what
/// was written and to whom.
pub proof fn law_frames_tell_lines_apart(
    s: Session,
    pins: Pins,
    target: Option<Seq<char>>,
    l: Seq<char>,
    k: Seq<char>,
)
    requires
        s.connected,
        may_reach(pins, meant(pins, target)),
        !l.contains('\r') && !l.contains('\n') && !is_blank(l),
        !k.contains('\r') && !k.contains('\n') && !is_blank(k),
        send_outcome(s, pins, target, Some(l)) == send_outcome(s, pins, target, Some(k)),
    ensures
        l == k,
{
    law_one_line_is_sent_whole(s, pins, target, l);
    law_one_line_is_sent_whole(s, pins, target, k);
    let t = meant(pins, target);
    let head = "PRIVMSG "@ + t + " :"@;
    let f = head + l + "\r\n"@;
    let g = head + k + "\r\n"@;
    reveal_strlit("\r\n");
    assert(seq![f][0] == seq![g][0]);
    assert(f.subrange(head.len() as int, f.len() - 2) =~= l);
    assert(g.subrange(head.len() as int, g.len() - 2) =~= k);
}

/// The frames of a message are written one after the other until one cannot be;
/// that is reported with its reason, and nothing after it is written.
pub proof fn law_frames_are_written_in_order(
    frames: Seq<Seq<char>>,
    report: Seq<char>,
    written: nat,
    reason: Seq<char>,
)
    ensures
        written < frames.len() ==> send_on(frames, report, written, None) == Sending::Write(
            frames[written as int],
        ),
        written >= frames.len() ==> send_on(frames, report, written, None) == Sending::Report(
            Ok(report),
        ),
        send_on(frames, report, written, Some(reason)) == Sending::Report(
            Err("send failed: "@ + reason),
        ),
        failed_write(reason) == "send failed: "@ + reason,
{
}

/// A line is written with a carriage return and a line feed behind it, while there
/// is a connection.
pub proof fn law_line_is_written(s: Session, line: Seq<char>)
    ensures
        s.connected ==> to_write(s, line) == (Ok::<Seq<char>, Seq<char>>(
            line + seq!['\r', '\n'],
        )),
        !s.connected ==> to_write(s, line) == (Err::<Seq<char>, Seq<char>>("not connected"@)),
{
    reveal_strlit("\r\n");
    assert("\r\n"@ =~= seq!['\r', '\n']);
}

/// What is done next about a message stands for itself.
pub proof fn law_send_step_stands_for_itself(r: SendStep)
    ensures
        match r {
            SendStep::Write(f) => r@ == Sending::Write(f@),
            SendStep::Report(Ok(t)) => r@ == Sending::Report(Ok(t@)),
            SendStep::Report(Err(t)) => r@ == Sending::Report(Err(t@)),
        },
{
}

} // verus!
