//! What a reader is told of the lines that a server writes, letter by letter.
use vstd::prelude::*;

use crate::irc::{IrcLine, ascii_uppercase, event_text, parse_line, uppercase};
use crate::laws::protocol::{are_words, back_of, law_parse_of_wire, law_sender, wire_line};
use crate::state::{Session, arrived, reply_to};
use crate::text::{is_solid, is_space, join, starts_with};

verus! {

/// The commands that are heeded are no two the same.
proof fn lemma_commands_differ()
    ensures
        "PING"@ != "PRIVMSG"@ && "PING"@ != "NOTICE"@ && "PING"@ != "JOIN"@ && "PING"@ != "PART"@,
        "PING"@ != "QUIT"@ && "PING"@ != "NICK"@ && "PING"@ != "TOPIC"@ && "PING"@ != "KICK"@,
        "PING"@ != "353"@ && "PING"@ != "001"@ && "353"@ != "001"@,
        "JOIN"@ != "PART"@ && "JOIN"@ != "QUIT"@ && "JOIN"@ != "NICK"@ && "JOIN"@ != "KICK"@,
        "PART"@ != "QUIT"@ && "PART"@ != "NICK"@ && "PART"@ != "KICK"@,
        "QUIT"@ != "NICK"@ && "QUIT"@ != "KICK"@ && "NICK"@ != "KICK"@,
        "PRIVMSG"@.len() == 7 && "NOTICE"@.len() == 6 && "TOPIC"@.len() == 5,
        "PING"@.len() == 4 && "JOIN"@.len() == 4 && "PART"@.len() == 4 && "QUIT"@.len() == 4,
        "NICK"@.len() == 4 && "KICK"@.len() == 4 && "353"@.len() == 3 && "001"@.len() == 3,
{
    reveal_strlit("PING");
    reveal_strlit("PRIVMSG");
    reveal_strlit("NOTICE");
    reveal_strlit("JOIN");
    reveal_strlit("PART");
    reveal_strlit("QUIT");
    reveal_strlit("NICK");
    reveal_strlit("TOPIC");
    reveal_strlit("KICK");
    reveal_strlit("353");
    reveal_strlit("001");
    assert("PING"@[0] == 'P' && "PING"@[1] == 'I');
    assert("JOIN"@[0] == 'J');
    assert("PART"@[0] == 'P' && "PART"@[1] == 'A');
    assert("QUIT"@[0] == 'Q');
    assert("NICK"@[0] == 'N');
    assert("KICK"@[0] == 'K');
    assert("353"@[0] == '3' && "001"@[0] == '0');
}

// ---- any line -----------------------------------------------------------------

/// Argument number `n` of a line, or nothing where there is none.
pub open spec fn argument(m: IrcLine, n: int) -> Seq<char> {
    if 0 <= n < m.args.len() {
        m.args[n]
    } else {
        Seq::empty()
    }
}

/// What is told of a line, command by command, whatever its parts; of a line with
/// any other command nothing is told.
pub proof fn law_told(m: IrcLine)
    ensures
        m.cmd == "PRIVMSG"@ || m.cmd == "NOTICE"@ ==> event_text(m) == Some(
            "["@ + argument(m, 0) + "] <"@ + m.prefix + "> "@ + m.trailing,
        ),
        m.cmd == "JOIN"@ && m.args.len() > 0 ==> event_text(m) == Some(
            "* "@ + m.prefix + " joined "@ + m.args[0],
        ),
        m.cmd == "JOIN"@ && m.args.len() == 0 ==> event_text(m) == Some(
            "* "@ + m.prefix + " joined "@ + m.trailing,
        ),
        m.cmd == "PART"@ ==> event_text(m) == Some(
            "* "@ + m.prefix + " left "@ + argument(m, 0),
        ),
        m.cmd == "QUIT"@ ==> event_text(m) == Some(
            "* "@ + m.prefix + " quit ("@ + m.trailing + ")"@,
        ),
        m.cmd == "NICK"@ ==> event_text(m) == Some(
            "* "@ + m.prefix + " is now known as "@ + m.trailing,
        ),
        m.cmd == "TOPIC"@ ==> event_text(m) == Some(
            "* "@ + m.prefix + " set topic of "@ + argument(m, 0) + ": "@ + m.trailing,
        ),
        m.cmd == "KICK"@ ==> event_text(m) == Some(
            "* "@ + argument(m, 1) + " was kicked from "@ + argument(m, 0) + " by "@ + m.prefix
                + " ("@ + m.trailing + ")"@,
        ),
        m.cmd == "353"@ ==> event_text(m) == Some(
            "* users in "@ + argument(m, 2) + ": "@ + m.trailing,
        ),
        event_text(m) is Some ==> m.cmd == "PRIVMSG"@ || m.cmd == "NOTICE"@ || m.cmd == "JOIN"@
            || m.cmd == "PART"@ || m.cmd == "QUIT"@ || m.cmd == "NICK"@ || m.cmd == "TOPIC"@
            || m.cmd == "KICK"@ || m.cmd == "353"@,
{
    lemma_commands_differ();
}

/// A queue that holds no more than `limit`, with one more at its end, for which
/// the oldest makes room.
pub open spec fn with_room(queue: Seq<Seq<char>>, item: Seq<char>, limit: nat) -> Seq<Seq<char>> {
    if queue.len() < limit {
        queue.push(item)
    } else {
        queue.push(item).skip(1)
    }
}

/// A line of the present connection is logged, and of the log the last hundred
/// lines stay. The welcome registers the client. What the line tells is queued,
/// and of the queue the last five hundred stay. Nothing else changes.
pub proof fn law_line_arrives(s: Session, line: Seq<char>)
    ensures
        ({
            let t = arrived(s, s.connection, line);
            &&& t.log == with_room(s.log, line, 100)
            &&& t.registered == (s.registered || parse_line(line).cmd == "001"@)
            &&& t.messages == match event_text(parse_line(line)) {
                Some(e) => with_room(s.messages, e, 500),
                None => s.messages,
            }
            &&& t.connection == s.connection && t.connected == s.connected
            &&& t.nick == s.nick && t.server == s.server && t.channels == s.channels
        }),
{
    lemma_commands_differ();
    law_told(parse_line(line));
}

/// A command is told from its letters, large or small: those of `a` to `z` count
/// as the large ones, and all others as they are.
pub proof fn law_command_letters(c: Seq<char>, i: int)
    requires
        0 <= i < c.len(),
    ensures
        ascii_uppercase(c).len() == c.len(),
        97 <= c[i] as int <= 122 ==> ascii_uppercase(c)[i] as int == c[i] as int - 32,
        !(97 <= c[i] as int <= 122) ==> ascii_uppercase(c)[i] == c[i],
{
}

// ---- lines as they are written --------------------------------------------------

/// A nick, as it stands before the exclamation mark.
pub open spec fn is_nick(nick: Seq<char>) -> bool {
    !nick.contains('!') && !nick.contains(' ')
}

/// A word that can stand among the arguments.
pub open spec fn is_word(w: Seq<char>) -> bool {
    &&& w.len() > 0
    &&& w[0] != ':'
    &&& forall|i: int| 0 <= i < w.len() ==> !is_space(#[trigger] w[i])
}

/// A line from `nick`, who has the user and host `who`: the words `body` and what
/// follows them.
pub open spec fn line_from(nick: Seq<char>, who: Seq<char>, body: Seq<char>) -> Seq<char> {
    seq![':'] + nick + seq!['!'] + who + seq![' '] + body
}

/// The queued events once a line has arrived that tells `e`.
pub open spec fn tells(s: Session, line: Seq<char>, e: Seq<char>) -> bool {
    arrived(s, s.connection, line).messages == with_room(s.messages, e, 500)
}

/// A line from a nick, with words and trailing text, is taken apart.
proof fn lemma_parse_from(
    nick: Seq<char>,
    who: Seq<char>,
    parts: Seq<Seq<char>>,
    trailing: Option<Seq<char>>,
)
    requires
        is_nick(nick),
        !who.contains(' '),
        parts.len() > 0,
        forall|i: int| 0 <= i < parts.len() ==> is_word(#[trigger] parts[i]),
    ensures
        parse_line(
            line_from(nick, who, join(parts, seq![' ']) + back_of(trailing)),
        ) == (IrcLine {
            prefix: nick,
            cmd: uppercase(parts[0]),
            args: parts.skip(1),
            trailing: match trailing {
                Some(t) => t,
                None => Seq::empty(),
            },
        }),
{
    let mask = nick + seq!['!'] + who;
    assert forall|i: int| 0 <= i < mask.len() implies mask[i] != ' ' by {
        if i < nick.len() {
            assert(mask[i] == nick[i]);
        } else if i > nick.len() {
            assert(mask[i] == who[i - nick.len() - 1]);
        }
    }
    assert(line_from(nick, who, join(parts, seq![' ']) + back_of(trailing)) =~= wire_line(
        Some(mask),
        parts,
        trailing,
    ));
    assert forall|i: int| 0 <= i < parts.len() implies (#[trigger] parts[i]).len() > 0 && is_solid(
        parts[i],
    ) && !starts_with(parts[i], ':') by {
        assert(is_word(parts[i]));
    }
    law_parse_of_wire(Some(mask), parts, trailing);
    law_sender(nick, who);
}

/// Words with single spaces between them.
proof fn lemma_joined_words(a: Seq<char>, b: Seq<char>, c: Seq<char>, d: Seq<char>)
    ensures
        join(seq![a], seq![' ']) == a,
        join(seq![a, b], seq![' ']) == a + seq![' '] + b,
        join(seq![a, b, c], seq![' ']) == a + seq![' '] + b + seq![' '] + c,
        join(seq![a, b, c, d], seq![' ']) == a + seq![' '] + b + seq![' '] + c + seq![' '] + d,
{
    let sp = seq![' '];
    assert(join(seq![a], sp) == a);
    assert(seq![a, b].drop_last() =~= seq![a]);
    assert(join(seq![a, b], sp) == a + sp + b);
    assert(seq![a, b, c].drop_last() =~= seq![a, b]);
    assert(join(seq![a, b, c], sp) == a + sp + b + sp + c);
    assert(seq![a, b, c, d].drop_last() =~= seq![a, b, c]);
    assert(join(seq![a, b, c, d], sp) == a + sp + b + sp + c + sp + d);
}

/// A message, and a notice, is told whole: where it went, who wrote it, and all of
/// its text.
pub proof fn law_message_is_told(
    s: Session,
    nick: Seq<char>,
    who: Seq<char>,
    c: Seq<char>,
    target: Seq<char>,
    text: Seq<char>,
)
    requires
        is_nick(nick) && !who.contains(' '),
        is_word(c) && is_word(target),
        uppercase(c) == "PRIVMSG"@ || uppercase(c) == "NOTICE"@,
    ensures
        tells(
            s,
            line_from(nick, who, c + seq![' '] + target + seq![' ', ':'] + text),
            "["@ + target + "] <"@ + nick + "> "@ + text,
        ),
{
    let parts = seq![c, target];
    lemma_joined_words(c, target, target, target);
    lemma_parse_from(nick, who, parts, Some(text));
    let body = c + seq![' '] + target + seq![' ', ':'] + text;
    assert(body =~= join(parts, seq![' ']) + back_of(Some(text)));
    law_line_arrives(s, line_from(nick, who, body));
    law_told(parse_line(line_from(nick, who, body)));
    assert(parts.skip(1)[0] == target);
}

/// A join is told with its channel, whether that stands among the words, with or
/// without more after it, or after the colon.
pub proof fn law_join_is_told(
    s: Session,
    nick: Seq<char>,
    who: Seq<char>,
    c: Seq<char>,
    channel: Seq<char>,
    more: Seq<char>,
)
    requires
        is_nick(nick) && !who.contains(' '),
        is_word(c),
        uppercase(c) == "JOIN"@,
    ensures
        is_word(channel) ==> tells(
            s,
            line_from(nick, who, c + seq![' '] + channel),
            "* "@ + nick + " joined "@ + channel,
        ) && tells(
            s,
            line_from(nick, who, c + seq![' '] + channel + seq![' ', ':'] + more),
            "* "@ + nick + " joined "@ + channel,
        ),
        tells(
            s,
            line_from(nick, who, c + seq![' ', ':'] + channel),
            "* "@ + nick + " joined "@ + channel,
        ),
{
    lemma_joined_words(c, channel, channel, channel);
    if is_word(channel) {
        let parts = seq![c, channel];
        lemma_parse_from(nick, who, parts, None);
        let body = c + seq![' '] + channel;
        assert(body =~= join(parts, seq![' ']) + back_of(None));
        law_line_arrives(s, line_from(nick, who, body));
        law_told(parse_line(line_from(nick, who, body)));
        lemma_parse_from(nick, who, parts, Some(more));
        let longer = c + seq![' '] + channel + seq![' ', ':'] + more;
        assert(longer =~= join(parts, seq![' ']) + back_of(Some(more)));
        law_line_arrives(s, line_from(nick, who, longer));
        law_told(parse_line(line_from(nick, who, longer)));
        assert(parts.skip(1)[0] == channel);
    }
    let parts = seq![c];
    lemma_parse_from(nick, who, parts, Some(channel));
    let body = c + seq![' ', ':'] + channel;
    assert(body =~= join(parts, seq![' ']) + back_of(Some(channel)));
    law_line_arrives(s, line_from(nick, who, body));
    law_told(parse_line(line_from(nick, who, body)));
    assert(parts.skip(1).len() == 0);
}

/// A parting is told with its channel, with or without a reason.
pub proof fn law_part_is_told(
    s: Session,
    nick: Seq<char>,
    who: Seq<char>,
    c: Seq<char>,
    channel: Seq<char>,
    reason: Seq<char>,
)
    requires
        is_nick(nick) && !who.contains(' '),
        is_word(c) && is_word(channel),
        uppercase(c) == "PART"@,
    ensures
        tells(
            s,
            line_from(nick, who, c + seq![' '] + channel),
            "* "@ + nick + " left "@ + channel,
        ),
        tells(
            s,
            line_from(nick, who, c + seq![' '] + channel + seq![' ', ':'] + reason),
            "* "@ + nick + " left "@ + channel,
        ),
{
    let parts = seq![c, channel];
    lemma_joined_words(c, channel, channel, channel);
    lemma_parse_from(nick, who, parts, None);
    lemma_parse_from(nick, who, parts, Some(reason));
    let body = c + seq![' '] + channel;
    assert(body =~= join(parts, seq![' ']) + back_of(None));
    law_line_arrives(s, line_from(nick, who, body));
    law_told(parse_line(line_from(nick, who, body)));
    let longer = c + seq![' '] + channel + seq![' ', ':'] + reason;
    assert(longer =~= join(parts, seq![' ']) + back_of(Some(reason)));
    law_line_arrives(s, line_from(nick, who, longer));
    law_told(parse_line(line_from(nick, who, longer)));
    assert(parts.skip(1)[0] == channel);
}

/// A quitting is told with all of its reason, and a new nick whole.
pub proof fn law_quit_and_nick_are_told(
    s: Session,
    nick: Seq<char>,
    who: Seq<char>,
    c: Seq<char>,
    text: Seq<char>,
)
    requires
        is_nick(nick) && !who.contains(' '),
        is_word(c),
    ensures
        uppercase(c) == "QUIT"@ ==> tells(
            s,
            line_from(nick, who, c + seq![' ', ':'] + text),
            "* "@ + nick + " quit ("@ + text + ")"@,
        ),
        uppercase(c) == "NICK"@ ==> tells(
            s,
            line_from(nick, who, c + seq![' ', ':'] + text),
            "* "@ + nick + " is now known as "@ + text,
        ),
{
    let parts = seq![c];
    lemma_joined_words(c, c, c, c);
    lemma_parse_from(nick, who, parts, Some(text));
    let body = c + seq![' ', ':'] + text;
    assert(body =~= join(parts, seq![' ']) + back_of(Some(text)));
    law_line_arrives(s, line_from(nick, who, body));
    law_told(parse_line(line_from(nick, who, body)));
}

/// A topic is told whole, with its channel and who set it.
pub proof fn law_topic_is_told(
    s: Session,
    nick: Seq<char>,
    who: Seq<char>,
    c: Seq<char>,
    channel: Seq<char>,
    topic: Seq<char>,
)
    requires
        is_nick(nick) && !who.contains(' '),
        is_word(c) && is_word(channel),
        uppercase(c) == "TOPIC"@,
    ensures
        tells(
            s,
            line_from(nick, who, c + seq![' '] + channel + seq![' ', ':'] + topic),
            "* "@ + nick + " set topic of "@ + channel + ": "@ + topic,
        ),
{
    let parts = seq![c, channel];
    lemma_joined_words(c, channel, channel, channel);
    lemma_parse_from(nick, who, parts, Some(topic));
    let body = c + seq![' '] + channel + seq![' ', ':'] + topic;
    assert(body =~= join(parts, seq![' ']) + back_of(Some(topic)));
    law_line_arrives(s, line_from(nick, who, body));
    law_told(parse_line(line_from(nick, who, body)));
    assert(parts.skip(1)[0] == channel);
}

/// A kick is told with who was kicked, from where, by whom, and all of the reason.
pub proof fn law_kick_is_told(
    s: Session,
    nick: Seq<char>,
    who: Seq<char>,
    c: Seq<char>,
    channel: Seq<char>,
    kicked: Seq<char>,
    reason: Seq<char>,
)
    requires
        is_nick(nick) && !who.contains(' '),
        is_word(c) && is_word(channel) && is_word(kicked),
        uppercase(c) == "KICK"@,
    ensures
        tells(
            s,
            line_from(
                nick,
                who,
                c + seq![' '] + channel + seq![' '] + kicked + seq![' ', ':'] + reason,
            ),
            "* "@ + kicked + " was kicked from "@ + channel + " by "@ + nick + " ("@ + reason
                + ")"@,
        ),
{
    let parts = seq![c, channel, kicked];
    lemma_joined_words(c, channel, kicked, kicked);
    lemma_parse_from(nick, who, parts, Some(reason));
    let body = c + seq![' '] + channel + seq![' '] + kicked + seq![' ', ':'] + reason;
    assert(body =~= join(parts, seq![' ']) + back_of(Some(reason)));
    law_line_arrives(s, line_from(nick, who, body));
    law_told(parse_line(line_from(nick, who, body)));
    assert(parts.skip(1)[0] == channel && parts.skip(1)[1] == kicked);
}

/// The users of a channel are told whole, with the channel.
pub proof fn law_names_are_told(
    s: Session,
    nick: Seq<char>,
    who: Seq<char>,
    c: Seq<char>,
    me: Seq<char>,
    sign: Seq<char>,
    channel: Seq<char>,
    users: Seq<char>,
)
    requires
        is_nick(nick) && !who.contains(' '),
        is_word(c) && is_word(me) && is_word(sign) && is_word(channel),
        uppercase(c) == "353"@,
    ensures
        tells(
            s,
            line_from(
                nick,
                who,
                c + seq![' '] + me + seq![' '] + sign + seq![' '] + channel + seq![' ', ':']
                    + users,
            ),
            "* users in "@ + channel + ": "@ + users,
        ),
{
    let parts = seq![c, me, sign, channel];
    lemma_joined_words(c, me, sign, channel);
    lemma_parse_from(nick, who, parts, Some(users));
    let body = c + seq![' '] + me + seq![' '] + sign + seq![' '] + channel + seq![' ', ':'] + users;
    assert(body =~= join(parts, seq![' ']) + back_of(Some(users)));
    law_line_arrives(s, line_from(nick, who, body));
    law_told(parse_line(line_from(nick, who, body)));
    assert(parts.skip(1)[2] == channel);
}

/// A line that names no sender is taken apart.
proof fn lemma_parse_bare(c: Seq<char>, trailing: Option<Seq<char>>)
    requires
        is_word(c),
    ensures
        parse_line(c + back_of(trailing)) == (IrcLine {
            prefix: Seq::empty(),
            cmd: uppercase(c),
            args: Seq::empty(),
            trailing: match trailing {
                Some(t) => t,
                None => Seq::empty(),
            },
        }),
{
    let parts = seq![c];
    lemma_joined_words(c, c, c, c);
    assert(c + back_of(trailing) =~= wire_line(None, parts, trailing));
    assert(is_solid(parts[0]));
    assert(are_words(parts));
    law_parse_of_wire(None, parts, trailing);
    assert(parts.skip(1) =~= Seq::empty());
}

/// A ping is answered with all of its text while there is a connection, and told
/// to no reader; the welcome is not answered, and registers the client.
pub proof fn law_ping_and_welcome(s: Session, c: Seq<char>, text: Seq<char>)
    requires
        is_word(c),
    ensures
        uppercase(c) == "PING"@ ==> {
            let line = c + seq![' ', ':'] + text;
            &&& s.connected ==> reply_to(s, s.connection, line) == Some("PONG :"@ + text + "\r\n"@)
            &&& s.connected ==> reply_to(s, s.connection, c) == Some("PONG :"@ + "\r\n"@)
            &&& !s.connected ==> reply_to(s, s.connection, line) is None
            &&& arrived(s, s.connection, line).messages == s.messages
            &&& arrived(s, s.connection, line).registered == s.registered
        },
        uppercase(c) == "001"@ ==> {
            let line = c + seq![' ', ':'] + text;
            &&& reply_to(s, s.connection, line) is None
            &&& arrived(s, s.connection, line).messages == s.messages
            &&& arrived(s, s.connection, line).registered
        },
{
    lemma_commands_differ();
    lemma_parse_bare(c, Some(text));
    lemma_parse_bare(c, None);
    let line = c + seq![' ', ':'] + text;
    assert(line =~= c + back_of(Some(text)));
    assert(c =~= c + back_of(None));
    law_line_arrives(s, line);
    law_told(parse_line(line));
    assert("PONG :"@ + Seq::<char>::empty() =~= "PONG :"@);
}

/// A line is answered only if it is a ping, only on the present connection, and
/// only while there is one.
pub proof fn law_only_pings_are_answered(s: Session, connection: u64, line: Seq<char>)
    ensures
        reply_to(s, connection, line) is Some <==> connection == s.connection && s.connected
            && parse_line(line).cmd == "PING"@,
        reply_to(s, connection, line) matches Some(f) ==> f == "PONG :"@ + parse_line(line).trailing
            + "\r\n"@,
{
}

} // verus!
