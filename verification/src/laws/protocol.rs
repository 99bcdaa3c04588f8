//! Lines of the protocol are taken apart into what they were put together from.
use vstd::prelude::*;

use crate::irc::{IrcLine, parse_line, sender, split_prefix, uppercase};
use crate::text::{
    find,
    is_solid,
    is_space,
    join,
    lemma_find_from,
    lemma_find_is,
    occurs_at,
    starts_with,
    words,
};

verus! {

/// What the trailing text adds to a line.
pub open spec fn back_of(trailing: Option<Seq<char>>) -> Seq<char> {
    match trailing {
        Some(t) => seq![' ', ':'] + t,
        None => Seq::empty(),
    }
}

/// A line: the mask of its sender, if it names one, then the command and its
/// arguments, then the trailing text, if there is one.
pub open spec fn line_of_parts(
    mask: Option<Seq<char>>,
    head: Seq<char>,
    trailing: Option<Seq<char>>,
) -> Seq<char> {
    let front = match mask {
        Some(m) => seq![':'] + m + seq![' '],
        None => Seq::empty(),
    };
    front + head + back_of(trailing)
}

/// A line as a server writes it: its sender, if it names one, then words, then
/// the trailing text, if there is one.
pub open spec fn wire_line(
    mask: Option<Seq<char>>,
    parts: Seq<Seq<char>>,
    trailing: Option<Seq<char>>,
) -> Seq<char> {
    line_of_parts(mask, join(parts, seq![' ']), trailing)
}

/// Words that can be told apart on a line: none is empty or holds white space,
/// and none but the first starts with a colon.
pub open spec fn are_words(parts: Seq<Seq<char>>) -> bool {
    &&& parts.len() > 0
    &&& forall|i: int|
        0 <= i < parts.len() ==> (#[trigger] parts[i]).len() > 0 && is_solid(parts[i])
    &&& forall|i: int| 0 < i < parts.len() ==> !starts_with(#[trigger] parts[i], ':')
}

/// Words parted by single spaces hold no space that a colon follows, and none
/// at their end.
proof fn lemma_no_gap(parts: Seq<Seq<char>>)
    requires
        are_words(parts),
    ensures
        join(parts, seq![' ']).len() > 0,
        join(parts, seq![' '])[0] == parts[0][0],
        !is_space(join(parts, seq![' ']).last()),
        forall|j: int|
            0 <= j < join(parts, seq![' ']).len() && #[trigger] join(parts, seq![' '])[j] == ' '
                ==> j + 1 < join(parts, seq![' ']).len() && join(parts, seq![' '])[j + 1] != ':',
    decreases parts.len(),
{
    let s = join(parts, seq![' ']);
    let p = parts.last();
    assert(p == parts[parts.len() - 1]);
    assert(!is_space(p[p.len() - 1]));
    if parts.len() == 1 {
        assert forall|j: int| 0 <= j < s.len() && #[trigger] s[j] == ' ' implies false by {
            assert(!is_space(parts[0][j]));
        }
    } else {
        let front = parts.drop_last();
        assert forall|i: int| 0 <= i < front.len() implies (#[trigger] front[i]).len() > 0
            && is_solid(front[i]) by {
            assert(front[i] == parts[i]);
        }
        assert forall|i: int| 0 < i < front.len() implies !starts_with(
            #[trigger] front[i],
            ':',
        ) by {
            assert(front[i] == parts[i]);
        }
        lemma_no_gap(front);
        let b = join(front, seq![' ']);
        assert(s == b + seq![' '] + p);
        assert forall|j: int| 0 <= j < s.len() && #[trigger] s[j] == ' ' implies j + 1 < s.len()
            && s[j + 1] != ':' by {
            if j < b.len() {
                assert(b[j] == ' ');
            } else if j == b.len() {
                assert(s[j + 1] == p[0]);
            } else {
                assert(s[j] == p[j - b.len() - 1]);
                assert(!is_space(p[j - b.len() - 1]));
            }
        }
    }
}

/// A space and a word add the word to the words before them.
proof fn lemma_words_add(s: Seq<char>, p: Seq<char>)
    requires
        p.len() > 0,
        is_solid(p),
    ensures
        words(s + seq![' '] + p) == words(s).push(p),
    decreases p.len(),
{
    let t = s + seq![' '] + p;
    let q = p.drop_last();
    let gap = s + seq![' '];
    assert(gap.drop_last() =~= s);
    assert(words(gap) == words(s));
    assert(t.last() == p.last());
    assert(!is_space(p[p.len() - 1]));
    if p.len() == 1 {
        assert(t.drop_last() =~= gap);
        assert(t[t.len() - 2] == ' ');
        assert(p =~= seq![t.last()]);
    } else {
        assert(t.drop_last() =~= s + seq![' '] + q);
        assert forall|i: int| 0 <= i < q.len() implies !is_space(#[trigger] q[i]) by {
            assert(q[i] == p[i]);
        }
        lemma_words_add(s, q);
        assert(t[t.len() - 2] == p[p.len() - 2]);
        assert(!is_space(p[p.len() - 2]));
        let before = words(s).push(q);
        assert(q.push(p.last()) =~= p);
        assert(before.update(before.len() - 1, before.last().push(t.last())) =~= words(s).push(p));
    }
}

/// A word by itself is the only word.
proof fn lemma_words_one(p: Seq<char>)
    requires
        p.len() > 0,
        is_solid(p),
    ensures
        words(p) == seq![p],
    decreases p.len(),
{
    let q = p.drop_last();
    assert(!is_space(p[p.len() - 1]));
    if p.len() == 1 {
        assert(words(q) =~= Seq::empty());
        assert(p =~= seq![p.last()]);
        assert(words(p) =~= seq![p]);
    } else {
        assert forall|i: int| 0 <= i < q.len() implies !is_space(#[trigger] q[i]) by {
            assert(q[i] == p[i]);
        }
        lemma_words_one(q);
        assert(!is_space(p[p.len() - 2]));
        assert(q.push(p.last()) =~= p);
        assert(words(p) =~= seq![p]);
    }
}

/// Words parted by single spaces are found again.
pub proof fn law_words_of_joined(parts: Seq<Seq<char>>)
    requires
        forall|i: int|
            0 <= i < parts.len() ==> (#[trigger] parts[i]).len() > 0 && is_solid(parts[i]),
    ensures
        words(join(parts, seq![' '])) == parts,
    decreases parts.len(),
{
    if parts.len() == 0 {
        assert(words(join(parts, seq![' '])) =~= parts);
    } else if parts.len() == 1 {
        lemma_words_one(parts[0]);
        assert(seq![parts[0]] =~= parts);
    } else {
        let front = parts.drop_last();
        assert forall|i: int| 0 <= i < front.len() implies (#[trigger] front[i]).len() > 0
            && is_solid(front[i]) by {
            assert(front[i] == parts[i]);
        }
        law_words_of_joined(front);
        let p = parts[parts.len() - 1];
        lemma_words_add(join(front, seq![' ']), p);
        assert(front.push(p) =~= parts);
    }
}

/// What stands before the first exclamation mark of a mask is the sender's
/// nick; a mask without one is all nick.
pub proof fn law_sender(nick: Seq<char>, rest: Seq<char>)
    requires
        !nick.contains('!'),
    ensures
        sender(nick + seq!['!'] + rest) == nick,
        sender(nick) == nick,
{
    let mask = nick + seq!['!'] + rest;
    let mark = seq!['!'];
    assert(mask.subrange(nick.len() as int, nick.len() as int + 1) =~= mark);
    assert forall|j: int| 0 <= j < nick.len() implies !#[trigger] occurs_at(mask, mark, j) by {
        assert(mask[j] == nick[j]);
        if occurs_at(mask, mark, j) {
            assert(mask.subrange(j, j + 1)[0] == '!');
        }
    }
    lemma_find_is(mask, mark, nick.len() as int);
    assert(mask.take(nick.len() as int) =~= nick);
    lemma_find_from(nick, mark, 0);
    match find(nick, mark) {
        Some(i) => {
            assert(nick.subrange(i, i + 1)[0] == '!');
            assert(nick[i] == '!');
        },
        None => {},
    }
}

/// Every line is taken apart where its parts meet. What stands between a colon at
/// its start and the first space is the mask of its sender; a line that does not
/// start with a colon, or holds no space, has none. What stands after the first
/// space that a colon follows is the trailing text. Of the words between the two
/// the first is the command and the others are its arguments.
pub proof fn law_parse(mask: Option<Seq<char>>, head: Seq<char>, trailing: Option<Seq<char>>)
    requires
        mask matches Some(m) ==> !m.contains(' '),
        mask is None ==> !(line_of_parts(mask, head, trailing).len() > 0 && line_of_parts(
            mask,
            head,
            trailing,
        )[0] == ':' && line_of_parts(mask, head, trailing).contains(' ')),
        forall|j: int|
            0 <= j < head.len() && j + 1 < (head + back_of(trailing)).len() && #[trigger] head[j]
                == ' ' ==> (head + back_of(trailing))[j + 1] != ':',
    ensures
        ({
            let m = parse_line(line_of_parts(mask, head, trailing));
            let w = words(head);
            &&& m.prefix == match mask {
                Some(m) => sender(m),
                None => Seq::empty(),
            }
            &&& w.len() == 0 ==> m.cmd == uppercase(Seq::empty()) && m.args.len() == 0
            &&& w.len() > 0 ==> m.cmd == uppercase(w[0]) && m.args == w.skip(1)
            &&& m.trailing == match trailing {
                Some(t) => t,
                None => Seq::empty(),
            }
        }),
{
    let line = line_of_parts(mask, head, trailing);
    let back = back_of(trailing);
    let rest = head + back;
    match mask {
        Some(m) => {
            let r = m + seq![' '] + rest;
            assert(line =~= seq![':'] + r);
            assert(line.skip(1) =~= r);
            assert(r.subrange(m.len() as int, m.len() as int + 1) =~= seq![' ']);
            assert forall|j: int| 0 <= j < m.len() implies !#[trigger] occurs_at(
                r,
                seq![' '],
                j,
            ) by {
                assert(r[j] == m[j]);
                if occurs_at(r, seq![' '], j) {
                    assert(r.subrange(j, j + 1)[0] == ' ');
                }
            }
            lemma_find_is(r, seq![' '], m.len() as int);
            assert(r.take(m.len() as int) =~= m);
            assert(r.skip(m.len() as int + 1) =~= rest);
            assert(split_prefix(line) == (sender(m), rest));
        },
        None => {
            assert(line =~= rest);
            if starts_with(line, ':') {
                lemma_find_from(line.skip(1), seq![' '], 0);
                match find(line.skip(1), seq![' ']) {
                    Some(i) => {
                        assert(line.skip(1).subrange(i, i + 1)[0] == ' ');
                        assert(line[i + 1] == ' ');
                        assert(line.contains(' '));
                    },
                    None => {},
                }
            }
            assert(split_prefix(line) == (Seq::<char>::empty(), rest));
        },
    }
    let gap = seq![' ', ':'];
    assert forall|j: int| 0 <= j < head.len() implies !#[trigger] occurs_at(rest, gap, j) by {
        if occurs_at(rest, gap, j) {
            let w = rest.subrange(j, j + 2);
            assert(w[0] == ' ' && w[1] == ':');
            assert(rest[j] == ' ' && rest[j + 1] == ':');
            assert(head[j] == ' ');
        }
    }
    match trailing {
        Some(t) => {
            assert(rest.subrange(head.len() as int, head.len() as int + 2) =~= gap);
            lemma_find_is(rest, gap, head.len() as int);
            assert(rest.take(head.len() as int) =~= head);
            assert(rest.skip(head.len() as int + 2) =~= t);
        },
        None => {
            assert(rest =~= head);
            lemma_find_from(rest, gap, 0);
        },
    }
}

/// A line is taken apart into what it was put together from: its sender, its
/// command, its arguments and its trailing text. A line that names no sender
/// must not start with a colon.
pub proof fn law_parse_of_wire(
    mask: Option<Seq<char>>,
    parts: Seq<Seq<char>>,
    trailing: Option<Seq<char>>,
)
    requires
        are_words(parts),
        mask matches Some(m) ==> !m.contains(' '),
        mask is None ==> !starts_with(parts[0], ':'),
    ensures
        parse_line(wire_line(mask, parts, trailing)) == (IrcLine {
            prefix: match mask {
                Some(m) => sender(m),
                None => Seq::empty(),
            },
            cmd: uppercase(parts[0]),
            args: parts.skip(1),
            trailing: match trailing {
                Some(t) => t,
                None => Seq::empty(),
            },
        }),
{
    let head = join(parts, seq![' ']);
    lemma_no_gap(parts);
    assert(wire_line(mask, parts, trailing) == line_of_parts(mask, head, trailing));
    if mask is None {
        assert(line_of_parts(mask, head, trailing)[0] == head[0]);
    }
    assert forall|j: int|
        0 <= j < head.len() && j + 1 < (head + back_of(trailing)).len() && #[trigger] head[j]
            == ' ' implies (head + back_of(trailing))[j + 1] != ':' by {
        assert(head[j + 1] != ':');
    }
    law_parse(mask, head, trailing);
    law_words_of_joined(parts);
}

} // verus!
