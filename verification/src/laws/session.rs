//! A session from end to end: what it hears, what it sends, where it connects.
use vstd::prelude::*;

use crate::connect::{
    Action,
    Event,
    Phase,
    Registration,
    can_follow,
    connect_next,
    connect_report,
    dial_error,
    dial_on,
    introduction,
    joins,
    reached,
    registration_of,
};
use crate::irc::{IrcLine, event_text, parse_line};
use crate::pinned::{Pins, is_channel};
use crate::state::{
    MAX_EVENTS,
    MAX_LOG,
    Session,
    answer,
    arrived,
    disconnected,
    ended,
    frame,
    push_bounded,
    received,
    reply_to,
};
use crate::text::{
    is_blank,
    is_first,
    is_line_end,
    is_one_line,
    join,
    lemma_first_exists,
    lemma_split_first,
    lemma_split_none,
    line_ends,
    lines,
    split,
};
use crate::tools::{
    SHOWN_LOG,
    drained,
    ends_name,
    farewell,
    is_bare,
    is_reachable,
    last_of,
    privmsg,
    privmsgs,
    quit_report,
    quitted,
    recv_reply,
    send_outcome,
    sent_lines,
    sent_report,
    status_text,
    target_of,
};

verus! {

// ---- what is heard ------------------------------------------------------------

/// A bounded queue to which `items` were added in order.
pub open spec fn push_all(queue: Seq<Seq<char>>, items: Seq<Seq<char>>, limit: nat) -> Seq<
    Seq<char>,
>
    decreases items.len(),
{
    if items.len() == 0 {
        queue
    } else {
        push_bounded(push_all(queue, items.drop_last(), limit), items.last(), limit)
    }
}

/// A bounded queue keeps the newest of what it held and what was added to it, in
/// order.
pub proof fn law_queue_keeps_newest(queue: Seq<Seq<char>>, items: Seq<Seq<char>>, limit: nat)
    requires
        queue.len() <= limit,
    ensures
        push_all(queue, items, limit) == last_of(queue + items, limit),
    decreases items.len(),
{
    if items.len() > 0 {
        law_queue_keeps_newest(queue, items.drop_last(), limit);
        assert(push_all(queue, items, limit) =~= last_of(queue + items, limit));
    } else {
        assert(last_of(queue + items, limit) =~= queue);
    }
}

/// Adding to a bounded queue never takes it past its limit, nor makes it longer
/// where it was past its limit before.
pub proof fn law_queue_bound(queue: Seq<Seq<char>>, item: Seq<char>, limit: nat)
    ensures
        push_bounded(queue, item, limit).len() <= if queue.len() > limit {
            queue.len()
        } else {
            limit
        },
{
}

/// The session once all of `heard` has arrived on its connection, in order.
pub open spec fn hear(s: Session, heard: Seq<Seq<char>>) -> Session
    decreases heard.len(),
{
    if heard.len() == 0 {
        s
    } else {
        arrived(hear(s, heard.drop_last()), s.connection, heard.last())
    }
}

/// What a reader is told of lines, in order.
pub open spec fn told(heard: Seq<Seq<char>>) -> Seq<Seq<char>>
    decreases heard.len(),
{
    if heard.len() == 0 {
        Seq::empty()
    } else {
        match event_text(parse_line(heard.last())) {
            Some(e) => told(heard.drop_last()).push(e),
            None => told(heard.drop_last()),
        }
    }
}

/// A PING is nothing that a reader is told of.
proof fn lemma_ping_untold(m: IrcLine)
    requires
        m.cmd == "PING"@,
    ensures
        event_text(m) is None,
{
    reveal_strlit("PING");
    reveal_strlit("PRIVMSG");
    reveal_strlit("NOTICE");
    reveal_strlit("JOIN");
    reveal_strlit("PART");
    reveal_strlit("QUIT");
    reveal_strlit("NICK");
    reveal_strlit("TOPIC");
    reveal_strlit("KICK");
    reveal_strlit("353");
    assert("PING"@[0] == 'P' && "PING"@[1] == 'I');
    assert("JOIN"@[0] == 'J');
    assert("PART"@[1] == 'A');
    assert("QUIT"@[0] == 'Q');
    assert("NICK"@[0] == 'N');
    assert("KICK"@[0] == 'K');
}

/// Lines as they arrive go to the log, and what they tell goes to the queue for
/// the reader; both in order, and both keep the newest. What the session knows
/// of its own name and place stays as it is.
pub proof fn law_hear(s: Session, heard: Seq<Seq<char>>)
    ensures
        hear(s, heard).log == push_all(s.log, heard, MAX_LOG as nat),
        hear(s, heard).messages == push_all(s.messages, told(heard), MAX_EVENTS as nat),
        hear(s, heard).connection == s.connection,
        hear(s, heard).connected == s.connected,
        hear(s, heard).nick == s.nick,
        hear(s, heard).server == s.server,
        hear(s, heard).channels == s.channels,
        hear(s, heard).registered == (s.registered || exists|i: int|
            0 <= i < heard.len() && parse_line(#[trigger] heard[i]).cmd == "001"@),
        s.wf() ==> hear(s, heard).wf(),
    decreases heard.len(),
{
    if heard.len() > 0 {
        let front = heard.drop_last();
        law_hear(s, front);
        let m = parse_line(heard.last());
        if m.cmd == "PING"@ {
            lemma_ping_untold(m);
            reveal_strlit("PING");
            reveal_strlit("001");
            assert("PING"@.len() == 4 && "001"@.len() == 3);
        }
        if m.cmd == "001"@ {
            assert(heard[heard.len() - 1] == heard.last());
        }
        if exists|i: int| 0 <= i < front.len() && parse_line(#[trigger] front[i]).cmd == "001"@ {
            let i = choose|i: int|
                0 <= i < front.len() && parse_line(#[trigger] front[i]).cmd == "001"@;
            assert(heard[i] == front[i]);
        }
        if exists|i: int| 0 <= i < heard.len() && parse_line(#[trigger] heard[i]).cmd == "001"@ {
            let i = choose|i: int|
                0 <= i < heard.len() && parse_line(#[trigger] heard[i]).cmd == "001"@;
            if i < heard.len() - 1 {
                assert(front[i] == heard[i]);
            }
        }
        match event_text(m) {
            Some(e) => {
                assert(told(heard).drop_last() =~= told(front));
            },
            None => {},
        }
    }
}

/// A reader gets what was queued and then what is heard, in order, and then
/// nothing more; of more than the queue holds, the newest.
pub proof fn law_recv_in_order(s: Session, heard: Seq<Seq<char>>, time_left: bool)
    requires
        s.messages.len() <= MAX_EVENTS,
        s.messages.len() + told(heard).len() > 0,
    ensures
        recv_reply(hear(s, heard), time_left) == Some(
            join(last_of(s.messages + told(heard), MAX_EVENTS as nat), "\n"@),
        ),
        s.messages.len() + told(heard).len() <= MAX_EVENTS ==> recv_reply(
            hear(s, heard),
            time_left,
        ) == Some(join(s.messages + told(heard), "\n"@)),
        recv_reply(drained(hear(s, heard)), false) == Some("(no new messages)"@),
        recv_reply(drained(hear(s, heard)), true) is None,
{
    law_hear(s, heard);
    law_queue_keeps_newest(s.messages, told(heard), MAX_EVENTS as nat);
}

/// The last lines of the log are the last of those before and those heard.
pub proof fn law_recent_log(s: Session, heard: Seq<Seq<char>>)
    requires
        s.wf(),
    ensures
        last_of(hear(s, heard).log, SHOWN_LOG as nat) == last_of(s.log + heard, SHOWN_LOG as nat),
{
    law_hear(s, heard);
    law_queue_keeps_newest(s.log, heard, MAX_LOG as nat);
    assert(last_of(last_of(s.log + heard, MAX_LOG as nat), SHOWN_LOG as nat) =~= last_of(
        s.log + heard,
        SHOWN_LOG as nat,
    ));
}

/// A PING is answered with its own text while there is a connection, and told
/// to no reader.
pub proof fn law_ping(s: Session, raw: Seq<char>, m: IrcLine)
    requires
        m.cmd == "PING"@,
    ensures
        s.connected ==> answer(s, m) == Some(frame("PONG :"@ + m.trailing)),
        !s.connected ==> answer(s, m) is None,
        received(s, raw, m).messages == s.messages,
        received(s, raw, m).registered == s.registered,
{
}

/// Nothing but a PING is answered.
pub proof fn law_only_ping_answered(s: Session, m: IrcLine)
    requires
        m.cmd != "PING"@,
    ensures
        answer(s, m) is None,
{
}

// ---- what is sent -------------------------------------------------------------

/// A message goes to a pinned channel or to a bare nick, one PRIVMSG for each
/// line that is not blank, in order, and as many are reported. To any other target
/// nothing goes, whatever the message and the session.
pub proof fn law_send_pinned(
    s: Session,
    pins: Pins,
    target: Option<Seq<char>>,
    message: Option<Seq<char>>,
)
    ensures
        send_outcome(s, pins, target, message) matches Ok((frames, report)) ==> {
            let t = target_of(pins, target);
            &&& pins.channels.contains(t) || is_bare(t)
            &&& message matches Some(m) && frames.len() == sent_lines(m).len()
            &&& report == sent_report(frames.len(), t)
            &&& forall|i: int|
                0 <= i < frames.len() ==> #[trigger] frames[i] == privmsg(
                    t,
                    sent_lines(message->Some_0)[i],
                )
        },
        !pins.channels.contains(target_of(pins, target)) && !is_bare(target_of(pins, target))
            ==> send_outcome(s, pins, target, message) is Err,
{
}

/// The names in a list of targets, which commas part.
pub open spec fn names(target: Seq<char>) -> Seq<Seq<char>> {
    split(target, |c: char| c == ',')
}

/// A channel that is pinned, by itself or in a list of channels that is.
pub open spec fn is_pinned(pins: Pins, channel: Seq<char>) -> bool {
    exists|i: int|
        0 <= i < pins.channels.len() && names(#[trigger] pins.channels[i]).contains(channel)
}

/// No channel that is not pinned is written to, wherever it stands in a list of
/// targets. Where no pinned channel is itself a list, the channels written to are
/// pinned channels as they stand.
pub proof fn law_other_channels_get_nothing(
    s: Session,
    pins: Pins,
    target: Option<Seq<char>>,
    message: Option<Seq<char>>,
    name: Seq<char>,
)
    requires
        send_outcome(s, pins, target, message) is Ok,
        names(target_of(pins, target)).contains(name),
        is_channel(name),
    ensures
        is_pinned(pins, name),
        (forall|i: int|
            0 <= i < pins.channels.len() ==> !(#[trigger] pins.channels[i]).contains(','))
            ==> pins.channels.contains(name),
{
    let t = target_of(pins, target);
    let comma = |c: char| c == ',';
    if pins.channels.contains(t) {
        let i = choose|i: int| 0 <= i < pins.channels.len() && pins.channels[i] == t;
        assert(names(pins.channels[i]).contains(name));
        if forall|k: int|
            0 <= k < pins.channels.len() ==> !(#[trigger] pins.channels[k]).contains(',') {
            assert(!pins.channels[i].contains(','));
            lemma_split_none(t, comma);
        }
    } else {
        assert forall|j: int| 0 <= j < t.len() implies !comma(#[trigger] t[j]) by {
            assert(!ends_name(t[j]));
        }
        lemma_split_none(t, comma);
        assert(name == t);
    }
}

/// What goes over the wire ends where its end stands and nowhere before: each
/// frame of a message is one line, and that line is a PRIVMSG to its target. This
/// is so of every target but a pinned channel whose own name holds the end of a
/// line.
pub proof fn law_frame_is_one_line(
    s: Session,
    pins: Pins,
    target: Option<Seq<char>>,
    message: Option<Seq<char>>,
)
    requires
        pins.channels.contains(target_of(pins, target)) ==> is_one_line(target_of(pins, target)),
    ensures
        send_outcome(s, pins, target, message) matches Ok((frames, report)) ==> forall|i: int|
            0 <= i < frames.len() ==> {
                &&& is_one_line((#[trigger] frames[i]).take(frames[i].len() - 2))
                &&& frames[i].skip(frames[i].len() - 2) == "\r\n"@
                &&& ("PRIVMSG "@ + target_of(pins, target) + " :"@).is_prefix_of(frames[i])
            },
{
    match send_outcome(s, pins, target, message) {
        Ok((frames, _)) => {
            let t = target_of(pins, target);
            let m = message->Some_0;
            let head = "PRIVMSG "@ + t + " :"@;
            reveal_strlit("PRIVMSG ");
            reveal_strlit(" :");
            reveal_strlit("\r\n");
            law_sent_lines(m);
            assert forall|j: int| 0 <= j < t.len() implies !is_line_end(#[trigger] t[j]) by {
                if !pins.channels.contains(t) {
                    assert(!ends_name(t[j]));
                }
            }
            assert forall|i: int| 0 <= i < frames.len() implies {
                &&& is_one_line((#[trigger] frames[i]).take(frames[i].len() - 2))
                &&& frames[i].skip(frames[i].len() - 2) == "\r\n"@
                &&& head.is_prefix_of(frames[i])
            } by {
                let line = sent_lines(m)[i];
                assert(frames[i] == head + line + "\r\n"@);
                assert(is_one_line(line));
                assert(frames[i].take(frames[i].len() - 2) =~= head + line);
                assert(frames[i].skip(frames[i].len() - 2) =~= "\r\n"@);
                assert forall|j: int| 0 <= j < (head + line).len() implies !is_line_end(
                    #[trigger] (head + line)[j],
                ) by {
                    if j < 8 {
                        assert((head + line)[j] == "PRIVMSG "@[j]);
                    } else if j < 8 + t.len() {
                        assert((head + line)[j] == t[j - 8]);
                    } else if j < head.len() {
                        assert((head + line)[j] == " :"@[j - 8 - t.len()]);
                    } else {
                        assert((head + line)[j] == line[j - head.len()]);
                    }
                }
                assert(frames[i].take(head.len() as int) =~= head);
            }
        },
        Err(_) => {},
    }
}

/// The channel that a message goes to by default is a pinned one.
pub proof fn law_default_target(pins: Pins)
    requires
        pins.wf(),
    ensures
        is_channel(target_of(pins, None)),
        pins.channels.contains(target_of(pins, None)),
        is_reachable(pins, target_of(pins, None)),
{
    assert(pins.channels[0] == target_of(pins, None));
}

/// Without a connection nothing is sent but a message with nothing to send.
pub proof fn law_send_needs_connection(
    s: Session,
    pins: Pins,
    target: Option<Seq<char>>,
    message: Option<Seq<char>>,
)
    requires
        !s.connected,
    ensures
        send_outcome(s, pins, target, message) matches Ok((frames, report)) ==> frames.len() == 0,
{
}

/// No line of a text holds what ends a line.
pub proof fn law_lines_hold_no_end(s: Seq<char>)
    ensures
        forall|i: int| 0 <= i < lines(s).len() ==> is_one_line(#[trigger] lines(s)[i]),
    decreases s.len(),
{
    let at = line_ends();
    if exists|i: int| is_first(s, at, i) {
        let k = choose|i: int| is_first(s, at, i);
        lemma_split_first(s, at, k);
        law_lines_hold_no_end(s.skip(k + 1));
        let first = s.take(k);
        assert forall|j: int| 0 <= j < first.len() implies !is_line_end(#[trigger] first[j]) by {
            assert(!at(s[j]));
        }
        let rest = lines(s.skip(k + 1));
        assert forall|i: int| 0 <= i < lines(s).len() implies is_one_line(
            #[trigger] lines(s)[i],
        ) by {
            if i > 0 {
                assert(lines(s)[i] == rest[i - 1]);
            }
        }
    } else {
        assert forall|j: int| 0 <= j < s.len() implies !is_line_end(#[trigger] s[j]) by {
            if at(s[j]) {
                let i = lemma_first_exists(s, at, j);
            }
        }
    }
}

/// Each line that is sent is a line of the message, is not blank, and holds
/// nothing that would end it early.
pub proof fn law_sent_lines(m: Seq<char>)
    ensures
        forall|i: int|
            0 <= i < sent_lines(m).len() ==> {
                &&& !is_blank(#[trigger] sent_lines(m)[i])
                &&& is_one_line(sent_lines(m)[i])
                &&& lines(m).contains(sent_lines(m)[i])
            },
{
    let pred = |l: Seq<char>| !is_blank(l);
    law_lines_hold_no_end(m);
    assert forall|i: int| 0 <= i < sent_lines(m).len() implies {
        &&& !is_blank(#[trigger] sent_lines(m)[i])
        &&& is_one_line(sent_lines(m)[i])
        &&& lines(m).contains(sent_lines(m)[i])
    } by {
        let l = sent_lines(m)[i];
        lines(m).lemma_filter_pred(pred, i);
        assert(lines(m).filter(pred).contains(l));
        lines(m).lemma_filter_contains_rev(pred, l);
    }
}

/// The lines of two texts with the end of a line between them are those of the
/// first and then those of the second.
pub proof fn law_lines_of_two(a: Seq<char>, end: char, b: Seq<char>)
    requires
        is_line_end(end),
    ensures
        lines(a + seq![end] + b) == lines(a) + lines(b),
    decreases a.len(),
{
    let at = line_ends();
    let s = a + seq![end] + b;
    if exists|i: int| is_first(a, at, i) {
        let k = choose|i: int| is_first(a, at, i);
        lemma_split_first(a, at, k);
        assert forall|j: int| 0 <= j < k implies !at(#[trigger] s[j]) by {
            assert(s[j] == a[j]);
            assert(!at(a[j]));
        }
        assert(is_first(s, at, k));
        lemma_split_first(s, at, k);
        law_lines_of_two(a.skip(k + 1), end, b);
        assert(s.take(k) =~= a.take(k));
        assert(s.skip(k + 1) =~= a.skip(k + 1) + seq![end] + b);
        assert(lines(s) =~= lines(a) + lines(b));
    } else {
        let k = a.len() as int;
        assert forall|j: int| 0 <= j < k implies !at(#[trigger] s[j]) by {
            if at(s[j]) {
                assert(s[j] == a[j]);
                let i = lemma_first_exists(a, at, j);
            }
        }
        assert(s[k] == end);
        assert(is_first(s, at, k));
        lemma_split_first(s, at, k);
        assert(s.take(k) =~= a);
        assert(s.skip(k + 1) =~= b);
    }
}

/// The lines that are sent of two texts with the end of a line between them.
pub proof fn lemma_sent_of_two(a: Seq<char>, end: char, b: Seq<char>)
    requires
        is_line_end(end),
    ensures
        sent_lines(a + seq![end] + b) == sent_lines(a) + sent_lines(b),
{
    law_lines_of_two(a, end, b);
    Seq::filter_distributes_over_add(lines(a), lines(b), |l: Seq<char>| !is_blank(l));
}

/// Of a text that is one line, that line is sent, if it is not blank.
pub proof fn lemma_sent_of_one(l: Seq<char>)
    requires
        is_one_line(l),
    ensures
        !is_blank(l) ==> sent_lines(l) == seq![l],
        is_blank(l) ==> sent_lines(l) == Seq::<Seq<char>>::empty(),
{
    reveal(Seq::filter);
    let pred = |l: Seq<char>| !is_blank(l);
    lemma_split_none(l, line_ends());
    assert(seq![l].drop_last() =~= Seq::empty());
    assert(seq![l].drop_last().filter(pred) =~= Seq::empty());
    assert(!is_blank(l) ==> seq![l].filter(pred) =~= seq![l]);
    assert(is_blank(l) ==> seq![l].filter(pred) =~= Seq::empty());
}

/// What may stand between the lines of a message: a line feed, a carriage return
/// and a line feed, or a carriage return.
pub open spec fn is_break(sep: Seq<char>) -> bool {
    sep == seq!['\n'] || sep == seq!['\r', '\n'] || sep == seq!['\r']
}

/// The lines that are sent of two texts with a break between them.
proof fn lemma_sent_of_break(a: Seq<char>, sep: Seq<char>, b: Seq<char>)
    requires
        is_break(sep),
    ensures
        sent_lines(a + sep + b) == sent_lines(a) + sent_lines(b),
{
    if sep.len() == 1 {
        lemma_sent_of_two(a, sep[0], b);
        assert(sep =~= seq![sep[0]]);
    } else {
        let nothing = Seq::<char>::empty();
        let rest = nothing + seq!['\n'] + b;
        lemma_sent_of_two(a, '\r', rest);
        lemma_sent_of_two(nothing, '\n', b);
        lemma_sent_of_one(nothing);
        assert(sent_lines(nothing) + sent_lines(b) =~= sent_lines(b));
        assert(a + sep + b =~= a + seq!['\r'] + rest);
    }
}

/// The lines that were put together to a message are those that are sent.
pub proof fn lemma_sent_of_joined(parts: Seq<Seq<char>>, sep: Seq<char>)
    requires
        is_break(sep),
        forall|i: int|
            0 <= i < parts.len() ==> !is_blank(#[trigger] parts[i]) && is_one_line(parts[i]),
    ensures
        sent_lines(join(parts, sep)) == parts,
    decreases parts.len(),
{
    if parts.len() == 0 {
        lemma_sent_of_one(join(parts, sep));
        assert(parts =~= Seq::empty());
    } else {
        let last = parts.last();
        let front = parts.drop_last();
        assert(!is_blank(parts[parts.len() - 1]));
        lemma_sent_of_one(last);
        assert(parts =~= front + seq![last]);
        if parts.len() > 1 {
            assert forall|i: int| 0 <= i < front.len() implies !is_blank(#[trigger] front[i])
                && is_one_line(front[i]) by {
                assert(front[i] == parts[i]);
            }
            lemma_sent_of_joined(front, sep);
            lemma_sent_of_break(join(front, sep), sep, last);
        } else {
            assert(parts =~= seq![last]);
        }
    }
}

/// A message of several lines, none of them blank, goes out as one PRIVMSG for
/// each, in order and with its text unchanged, however its lines are parted.
pub proof fn law_one_privmsg_per_line(
    target: Seq<char>,
    parts: Seq<Seq<char>>,
    sep: Seq<char>,
)
    requires
        is_break(sep),
        forall|i: int|
            0 <= i < parts.len() ==> !is_blank(#[trigger] parts[i]) && is_one_line(parts[i]),
    ensures
        privmsgs(target, join(parts, sep)) == parts.map_values(|l: Seq<char>| privmsg(target, l)),
{
    lemma_sent_of_joined(parts, sep);
}

// ---- connections --------------------------------------------------------------

/// What went wrong with the first servers, for the given reasons.
pub open spec fn failures(pins: Pins, reasons: Seq<Seq<char>>) -> Seq<Seq<char>> {
    Seq::new(
        reasons.len(),
        |i: int| dial_error(pins.servers[i].0, pins.servers[i].1, reasons[i]),
    )
}

/// Servers are dialed in the pinned order: the first to start with, and after
/// each that fails the next, until all have failed and all that went wrong is
/// reported, in order.
pub proof fn law_fallback(pins: Pins, s: Session, reasons: Seq<Seq<char>>, reason: Seq<char>)
    requires
        reasons.len() < pins.servers.len(),
    ensures
        dial_on(pins, Seq::empty()).1 == (Action::Dial {
            host: pins.servers[0].0,
            port: pins.servers[0].1,
        }),
        ({
            let (p, after, a) = connect_next(
                Phase::Dialing { errors: failures(pins, reasons) },
                s,
                pins,
                Event::Unreachable { reason },
            );
            let tried = reasons.len() as int + 1;
            let errors = failures(pins, reasons.push(reason));
            &&& after == s
            &&& tried < pins.servers.len() ==> p == (Phase::Dialing { errors }) && a == (
            Action::Dial { host: pins.servers[tried].0, port: pins.servers[tried].1 })
            &&& tried == pins.servers.len() ==> p == Phase::Done && a == Action::Report(
                Err(join(errors, "; "@)),
            )
        }),
{
    let server = pins.servers[reasons.len() as int];
    assert(failures(pins, reasons).push(dial_error(server.0, server.1, reason)) =~= failures(
        pins,
        reasons.push(reason),
    ));
}

/// Whatever happens, an attempt to connect dials only pinned servers and writes
/// only what introduces the pinned nick or joins the pinned channels. It changes
/// the session in one way: to one with a pinned server, when that is reached.
pub proof fn law_connect_pinned(p: Phase, s: Session, pins: Pins, e: Event)
    requires
        can_follow(p, pins, e),
    ensures
        ({
            let (q, after, a) = connect_next(p, s, pins, e);
            &&& a matches Action::Dial { host, port } ==> pins.servers.contains((host, port))
            &&& a matches Action::Write { frames } ==> frames == introduction(pins.nick) || frames
                == joins(pins.channels)
            &&& e !is Reached ==> after == s
            &&& e is Reached ==> exists|i: int|
                0 <= i < pins.servers.len() && after == #[trigger] reached(
                    s,
                    pins,
                    pins.servers[i].0,
                    pins.servers[i].1,
                )
        }),
{
    if e is Reached {
        let i = p->errors.len() as int;
        assert(connect_next(p, s, pins, e).1 == reached(
            s,
            pins,
            pins.servers[i].0,
            pins.servers[i].1,
        ));
    }
}

/// Success is reported only after the server has accepted the nick and the
/// request to join each pinned channel, in order, has been written.
pub proof fn law_connect_success(p: Phase, s: Session, pins: Pins, e: Event)
    requires
        can_follow(p, pins, e),
    ensures
        ({
            let (q, after, a) = connect_next(p, s, pins, e);
            &&& a matches Action::Report(Ok(t)) ==> p == (Phase::Joining { report: t })
                && e is Written
            &&& q is Joining ==> {
                &&& s.registered
                &&& a == (Action::Write { frames: joins(pins.channels) })
                &&& q == (Phase::Joining { report: connect_report(s.server, pins) })
            }
        }),
{
}

/// Of what there was before a connection, only the log outlasts it, and the count
/// of connections goes on.
pub proof fn law_connect_replaces(
    before: Session,
    other: Session,
    pins: Pins,
    host: Seq<char>,
    port: u16,
)
    requires
        before.log == other.log,
        before.connection == other.connection,
    ensures
        reached(before, pins, host, port) == reached(other, pins, host, port),
        reached(before, pins, host, port).connected,
        !reached(before, pins, host, port).registered,
        reached(before, pins, host, port).messages.len() == 0,
        reached(before, pins, host, port).connection != before.connection,
{
}

/// What can happen to a session.
pub enum Happening {
    /// A server has been reached.
    Reached { host: Seq<char>, port: u16 },
    /// A line of a connection has arrived.
    Line { connection: u64, line: Seq<char> },
    /// The server of a connection has gone.
    End { connection: u64 },
    /// The reader has taken the queued events.
    Read,
    /// The reader has ended the connection.
    Quit,
}

/// The session after something has happened to it.
pub open spec fn once(s: Session, pins: Pins, h: Happening) -> Session {
    match h {
        Happening::Reached { host, port } => reached(s, pins, host, port),
        Happening::Line { connection, line } => arrived(s, connection, line),
        Happening::End { connection } => ended(s, connection),
        Happening::Read => drained(s),
        Happening::Quit => quitted(s),
    }
}

/// The session after all of `hs` has happened to it, in order.
pub open spec fn after(s: Session, pins: Pins, hs: Seq<Happening>) -> Session
    decreases hs.len(),
{
    if hs.len() == 0 {
        s
    } else {
        once(after(s, pins, hs.drop_last()), pins, hs.last())
    }
}

/// How often a server has been reached.
pub open spec fn times_reached(hs: Seq<Happening>) -> nat
    decreases hs.len(),
{
    if hs.len() == 0 {
        0
    } else {
        times_reached(hs.drop_last()) + if hs.last() is Reached {
            1nat
        } else {
            0
        }
    }
}

/// Each server that is reached raises the number of the connection by one, up to
/// the largest number, from which it goes on at zero; nothing else changes it.
pub proof fn law_connections_are_counted(s: Session, pins: Pins, hs: Seq<Happening>)
    ensures
        after(s, pins, hs).connection == (s.connection + times_reached(hs)) % (u64::MAX + 1),
    decreases hs.len(),
{
    if hs.len() > 0 {
        law_connections_are_counted(s, pins, hs.drop_last());
    }
}

/// Once a connection has been replaced, whatever else has happened, no line of it
/// and no end of it changes the session, and no line of it is answered. This is so
/// for as many connections after it as there are numbers for.
pub proof fn law_replaced_is_mute(
    s: Session,
    pins: Pins,
    hs: Seq<Happening>,
    line: Seq<char>,
)
    requires
        0 < times_reached(hs) <= u64::MAX,
    ensures
        arrived(after(s, pins, hs), s.connection, line) == after(s, pins, hs),
        ended(after(s, pins, hs), s.connection) == after(s, pins, hs),
        reply_to(after(s, pins, hs), s.connection, line) is None,
{
    law_connections_are_counted(s, pins, hs);
}

/// The channels are joined only once the server has accepted the nick: until
/// then the client waits, and gives up when its time is over or the server goes.
pub proof fn law_register_before_join(s: Session, pins: Pins)
    requires
        !s.registered,
    ensures
        s.connected ==> registration_of(s, pins, false) is Wait && registration_of(
            s,
            pins,
            true,
        ) is Fail,
        !s.connected ==> registration_of(s, pins, false) is Fail,
{
}

/// After the reader has ended the connection there is none: that is what is
/// reported, ending it again does nothing, and nothing more is sent.
pub proof fn law_quit(
    s: Session,
    pins: Pins,
    target: Option<Seq<char>>,
    message: Option<Seq<char>>,
)
    ensures
        status_text(quitted(s)) == "not connected"@,
        quitted(quitted(s)) == quitted(s),
        farewell(quitted(s)) is None,
        quit_report(quitted(s)) == "already disconnected"@,
        send_outcome(quitted(s), pins, target, message) matches Ok((frames, report))
            ==> frames.len() == 0,
        quitted(s).messages == s.messages,
{
}

/// After the server has gone there is no connection, and the reader's next
/// events end with word of it.
pub proof fn law_disconnect(s: Session, pins: Pins, expired: bool)
    ensures
        status_text(disconnected(s)) == "not connected"@,
        quit_report(disconnected(s)) == "already disconnected"@,
        registration_of(disconnected(s), pins, expired) == Registration::Fail(
            "server closed the connection during registration"@,
        ),
        recv_reply(disconnected(s), expired) == Some(
            join(s.messages.push("* disconnected from server"@), "\n"@),
        ),
{
}

} // verus!
