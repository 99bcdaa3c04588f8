//! Lines of the IRC protocol: taking them apart and telling them to a reader.
use vstd::prelude::*;

use crate::text::{find, same_text, search, starts, starts_with, texts, words, words_of};

verus! {

// ---- upper case ---------------------------------------------------------------

/// The upper case of a text, as `str::to_uppercase` gives it.
pub uninterp spec fn uppercase(s: Seq<char>) -> Seq<char>;

/// The upper case of an ASCII character.
pub open spec fn ascii_upper(c: char) -> char {
    if 'a' <= c <= 'z' {
        (c as int - 32) as char
    } else {
        c
    }
}

/// A text of ASCII characters only.
pub open spec fn is_ascii_text(s: Seq<char>) -> bool {
    forall|i: int| 0 <= i < s.len() ==> (#[trigger] s[i]) as int <= 127
}

/// The upper case of a text of ASCII characters.
pub open spec fn ascii_uppercase(s: Seq<char>) -> Seq<char> {
    s.map_values(|c: char| ascii_upper(c))
}

/// `str::to_uppercase` depends on its argument alone. Of a text of ASCII
/// characters it changes the letters `a` to `z`, each to its upper case, and
/// nothing else; of other texts nothing is said but the name of the result.
pub assume_specification[ str::to_uppercase ](s: &str) -> (r: String)
    ensures
        r@ == uppercase(s@),
        is_ascii_text(s@) ==> r@ == ascii_uppercase(s@),
;

// ---- parsing ------------------------------------------------------------------

/// A line of the protocol, taken apart.
pub struct IrcLine {
    pub prefix: Seq<char>,
    pub cmd: Seq<char>,
    pub args: Seq<Seq<char>>,
    pub trailing: Seq<char>,
}

/// The part of a prefix that names its sender: what stands before the first
/// exclamation mark.
pub open spec fn sender(mask: Seq<char>) -> Seq<char> {
    match find(mask, seq!['!']) {
        Some(i) => mask.take(i),
        None => mask,
    }
}

/// The sender that a line names, and the rest of the line. A prefix is what
/// stands between a colon at the start of the line and the first space after it.
pub open spec fn split_prefix(line: Seq<char>) -> (Seq<char>, Seq<char>) {
    if starts_with(line, ':') {
        match find(line.skip(1), seq![' ']) {
            Some(i) => (sender(line.skip(1).take(i)), line.skip(1).skip(i + 1)),
            None => (Seq::empty(), line),
        }
    } else {
        (Seq::empty(), line)
    }
}

/// What stands before the first space that a colon follows, and what stands
/// after the two.
pub open spec fn split_trailing(rest: Seq<char>) -> (Seq<char>, Seq<char>) {
    match find(rest, seq![' ', ':']) {
        Some(i) => (rest.take(i), rest.skip(i + 2)),
        None => (rest, Seq::empty()),
    }
}

/// Text number `n` of `parts`; the empty text where there is none.
pub open spec fn nth_or_empty(parts: Seq<Seq<char>>, n: int) -> Seq<char> {
    if 0 <= n < parts.len() {
        parts[n]
    } else {
        Seq::empty()
    }
}

/// The words of a line, the command first.
pub open spec fn line_words(line: Seq<char>) -> Seq<Seq<char>> {
    words(split_trailing(split_prefix(line).1).0)
}

/// The command of a line, as it is written.
pub open spec fn command_word(line: Seq<char>) -> Seq<char> {
    nth_or_empty(line_words(line), 0)
}

/// `:nick!user@host CMD args :trailing`, taken apart.
pub open spec fn parse_line(line: Seq<char>) -> IrcLine {
    let parts = line_words(line);
    IrcLine {
        prefix: split_prefix(line).0,
        cmd: uppercase(command_word(line)),
        args: if parts.len() > 0 {
            parts.skip(1)
        } else {
            parts
        },
        trailing: split_trailing(split_prefix(line).1).1,
    }
}

/// Parses ":nick!user@host CMD args :trailing" into the sender's nick, the
/// command in upper case, its arguments and the trailing text.
pub fn parse_irc(line: &str) -> (r: (String, String, Vec<String>, String))
    ensures
        r.0@ == parse_line(line@).prefix,
        r.1@ == parse_line(line@).cmd,
        is_ascii_text(command_word(line@)) ==> r.1@ == ascii_uppercase(command_word(line@)),
        texts(r.2@) == parse_line(line@).args,
        r.3@ == parse_line(line@).trailing,
{
    proof {
        reveal_strlit(" ");
        reveal_strlit("!");
        reveal_strlit(" :");
        reveal_strlit("");
        assert(" "@ =~= seq![' ']);
        assert("!"@ =~= seq!['!']);
        assert(" :"@ =~= seq![' ', ':']);
        assert(""@ =~= Seq::<char>::empty());
    }
    let mut rest = line;
    let mut prefix = String::new();
    if starts(line, ':') {
        let r = line.substring_char(1, line.unicode_len());
        assert(r@ =~= line@.skip(1));
        match search(r, " ") {
            Some(sp) => {
                let mask = r.substring_char(0, sp);
                assert(mask@ =~= r@.take(sp as int));
                match search(mask, "!") {
                    Some(b) => {
                        prefix = mask.substring_char(0, b).to_owned();
                        assert(prefix@ =~= mask@.take(b as int));
                    },
                    None => {
                        prefix = mask.to_owned();
                    },
                }
                rest = r.substring_char(sp + 1, r.unicode_len());
                assert(rest@ =~= r@.skip(sp + 1));
            },
            None => {},
        }
    }
    let mut head = rest;
    let mut trailing = String::new();
    match search(rest, " :") {
        Some(i) => {
            head = rest.substring_char(0, i);
            assert(head@ =~= rest@.take(i as int));
            let end: usize = rest.unicode_len();
            trailing = rest.substring_char(i + 2, end).to_owned();
            assert(trailing@ =~= rest@.skip(i + 2));
        },
        None => {},
    }
    let mut args = words_of(head);
    let ghost parts = texts(args@);
    let cmd = if args.len() > 0 {
        let first = args.remove(0);
        assert(texts(args@) =~= parts.skip(1));
        first.as_str().to_uppercase()
    } else {
        "".to_uppercase()
    };
    (prefix, cmd, args, trailing)
}

// ---- events -------------------------------------------------------------------

/// What a reader is told of a line, if anything.
pub open spec fn event_text(m: IrcLine) -> Option<Seq<char>> {
    let first = nth_or_empty(m.args, 0);
    if m.cmd == "PRIVMSG"@ || m.cmd == "NOTICE"@ {
        Some("["@ + first + "] <"@ + m.prefix + "> "@ + m.trailing)
    } else if m.cmd == "JOIN"@ {
        let channel = if m.args.len() > 0 {
            first
        } else {
            m.trailing
        };
        Some("* "@ + m.prefix + " joined "@ + channel)
    } else if m.cmd == "PART"@ {
        Some("* "@ + m.prefix + " left "@ + first)
    } else if m.cmd == "QUIT"@ {
        Some("* "@ + m.prefix + " quit ("@ + m.trailing + ")"@)
    } else if m.cmd == "NICK"@ {
        Some("* "@ + m.prefix + " is now known as "@ + m.trailing)
    } else if m.cmd == "TOPIC"@ {
        Some("* "@ + m.prefix + " set topic of "@ + first + ": "@ + m.trailing)
    } else if m.cmd == "KICK"@ {
        Some(
            "* "@ + nth_or_empty(m.args, 1) + " was kicked from "@ + first + " by "@ + m.prefix
                + " ("@ + m.trailing + ")"@,
        )
    } else if m.cmd == "353"@ {
        Some("* users in "@ + nth_or_empty(m.args, 2) + ": "@ + m.trailing)
    } else {
        None
    }
}

/// Argument number `n`; the empty text where there is none.
fn arg(args: &Vec<String>, n: usize) -> (r: &str)
    ensures
        r@ == nth_or_empty(texts(args@), n as int),
{
    if n < args.len() {
        args[n].as_str()
    } else {
        proof {
            reveal_strlit("");
            assert(""@ =~= Seq::<char>::empty());
        }
        ""
    }
}

/// A line with the given parts.
pub open spec fn line_of(
    prefix: Seq<char>,
    cmd: Seq<char>,
    args: Seq<Seq<char>>,
    trailing: Seq<char>,
) -> IrcLine {
    IrcLine { prefix, cmd, args, trailing }
}

/// What a reader is told of a line with the given parts, if anything.
pub fn describe(from: &str, cmd: &str, args: &Vec<String>, trailing: &str) -> (r: Option<String>)
    ensures
        match r {
            Some(e) => event_text(line_of(from@, cmd@, texts(args@), trailing@)) == Some(e@),
            None => event_text(line_of(from@, cmd@, texts(args@), trailing@)) is None,
        },
{
    if same_text(cmd, "PRIVMSG") || same_text(cmd, "NOTICE") {
        let e = "[".to_owned().concat(arg(args, 0)).concat("] <").concat(from).concat("> ").concat(
            trailing,
        );
        Some(e)
    } else if same_text(cmd, "JOIN") {
        let channel = if args.len() > 0 {
            arg(args, 0)
        } else {
            trailing
        };
        Some("* ".to_owned().concat(from).concat(" joined ").concat(channel))
    } else if same_text(cmd, "PART") {
        Some("* ".to_owned().concat(from).concat(" left ").concat(arg(args, 0)))
    } else if same_text(cmd, "QUIT") {
        Some("* ".to_owned().concat(from).concat(" quit (").concat(trailing).concat(")"))
    } else if same_text(cmd, "NICK") {
        Some("* ".to_owned().concat(from).concat(" is now known as ").concat(trailing))
    } else if same_text(cmd, "TOPIC") {
        Some(
            "* ".to_owned().concat(from).concat(" set topic of ").concat(arg(args, 0)).concat(
                ": ",
            ).concat(trailing),
        )
    } else if same_text(cmd, "KICK") {
        Some(
            "* ".to_owned().concat(arg(args, 1)).concat(" was kicked from ").concat(
                arg(args, 0),
            ).concat(" by ").concat(from).concat(" (").concat(trailing).concat(")"),
        )
    } else if same_text(cmd, "353") {
        Some("* users in ".to_owned().concat(arg(args, 2)).concat(": ").concat(trailing))
    } else {
        None
    }
}

} // verus!
