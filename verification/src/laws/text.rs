//! Text is searched, split, joined and counted as its readers expect.
use vstd::prelude::*;

use crate::laws::session::law_lines_of_two;
use crate::text::{
    decimal,
    digits_value,
    find,
    is_blank,
    is_digit,
    is_space,
    join,
    last_index,
    lemma_find_from,
    lemma_find_is,
    lemma_split_none,
    line_ends,
    lines,
    numeral_u16,
    occurs_at,
    optional,
    texts,
    without_plus,
    words,
};

verus! {

// ---- rows of texts ------------------------------------------------------------

/// The texts of a row of strings are those of the strings, in order.
pub proof fn law_texts(v: Seq<String>)
    ensures
        texts(v).len() == v.len(),
        forall|i: int| 0 <= i < v.len() ==> #[trigger] texts(v)[i] == v[i]@,
{
}

/// The text of an optional string is there when the string is.
pub proof fn law_optional(s: &str)
    ensures
        optional(Some(s)) == Some(s@),
        optional(None) is None,
{
}

/// Nothing joined is nothing, one text joined is that text, and one more text
/// adds the separator and itself.
pub proof fn law_join(parts: Seq<Seq<char>>, more: Seq<char>, sep: Seq<char>)
    ensures
        join(Seq::empty(), sep).len() == 0,
        join(seq![more], sep) == more,
        parts.len() > 0 ==> join(parts.push(more), sep) == join(parts, sep) + sep + more,
{
    assert(parts.push(more).drop_last() =~= parts);
}

// ---- searching ----------------------------------------------------------------

/// A text is found where it stands first, and not found where it stands nowhere.
pub proof fn law_find(s: Seq<char>, pat: Seq<char>, i: int)
    ensures
        find(s, pat) == Some(i) <==> {
            &&& 0 <= i <= s.len() - pat.len()
            &&& s.subrange(i, i + pat.len()) == pat
            &&& forall|j: int|
                0 <= j < i ==> #[trigger] s.subrange(j, j + pat.len()) != pat
        },
        find(s, pat) is None <==> forall|j: int|
            0 <= j <= s.len() - pat.len() ==> #[trigger] s.subrange(j, j + pat.len()) != pat,
{
    lemma_find_from(s, pat, 0);
    match find(s, pat) {
        Some(k) => {
            assert(occurs_at(s, pat, k));
            assert(s.subrange(k, k + pat.len()) == pat);
            assert forall|j: int| 0 <= j < k implies #[trigger] s.subrange(j, j + pat.len())
                != pat by {
                assert(!occurs_at(s, pat, j));
            }
            if 0 <= i <= s.len() - pat.len() && s.subrange(i, i + pat.len()) == pat {
                assert(occurs_at(s, pat, i));
            }
        },
        None => {
            assert forall|j: int| 0 <= j <= s.len() - pat.len() implies #[trigger] s.subrange(
                j,
                j + pat.len(),
            ) != pat by {
                assert(!occurs_at(s, pat, j));
            }
        },
    }
}

/// A character is found last where it stands and stands nowhere after.
pub proof fn law_last_index(s: Seq<char>, c: char, i: int)
    ensures
        last_index(s, c) == Some(i) <==> {
            &&& 0 <= i < s.len()
            &&& s[i] == c
            &&& forall|j: int| i < j < s.len() ==> #[trigger] s[j] != c
        },
        last_index(s, c) is None <==> forall|j: int| 0 <= j < s.len() ==> #[trigger] s[j] != c,
    decreases s.len(),
{
    if s.len() > 0 {
        let front = s.drop_last();
        law_last_index(front, c, i);
        assert forall|j: int| 0 <= j < front.len() implies #[trigger] front[j] == s[j] by {}
        if s.last() == c {
            assert(s[s.len() - 1] == c);
        } else {
            if i >= 0 && forall|j: int| i < j < front.len() ==> #[trigger] front[j] != c {
                assert forall|j: int| i < j < s.len() implies #[trigger] s[j] != c by {
                    if j < front.len() {
                        assert(front[j] != c);
                    }
                }
            }
            if i >= 0 && forall|j: int| i < j < s.len() ==> #[trigger] s[j] != c {
                assert forall|j: int| i < j < front.len() implies #[trigger] front[j] != c by {
                    assert(s[j] != c);
                }
            }
            if forall|j: int| 0 <= j < front.len() ==> #[trigger] front[j] != c {
                assert forall|j: int| 0 <= j < s.len() implies #[trigger] s[j] != c by {
                    if j < front.len() {
                        assert(front[j] != c);
                    }
                }
            }
            if forall|j: int| 0 <= j < s.len() ==> #[trigger] s[j] != c {
                assert forall|j: int| 0 <= j < front.len() implies #[trigger] front[j] != c by {
                    assert(s[j] != c);
                }
            }
        }
    }
}

// ---- splitting ----------------------------------------------------------------

/// A text of one white character is blank and no other of one is; the empty text
/// is blank, and two texts together are blank when both are.
pub proof fn law_blank(a: Seq<char>, b: Seq<char>, c: char)
    ensures
        is_blank(Seq::empty()),
        is_blank(seq![c]) <==> is_space(c),
        is_blank(a + b) <==> is_blank(a) && is_blank(b),
{
    if is_blank(seq![c]) {
        assert(is_space(seq![c][0]));
    }
    if is_blank(a + b) {
        assert forall|i: int| 0 <= i < a.len() implies is_space(#[trigger] a[i]) by {
            assert((a + b)[i] == a[i]);
        }
        assert forall|i: int| 0 <= i < b.len() implies is_space(#[trigger] b[i]) by {
            assert((a + b)[a.len() + i] == b[i]);
        }
    }
}

/// White space parts words: the words of two texts with some between them are
/// those of the first and then those of the second. A text without white space is
/// one word, and the empty text has none.
pub proof fn law_words(a: Seq<char>, gap: char, b: Seq<char>)
    requires
        is_space(gap),
    ensures
        words(a + seq![gap] + b) == words(a) + words(b),
        b.len() > 0 && (forall|i: int| 0 <= i < b.len() ==> !is_space(#[trigger] b[i])) ==> words(
            b,
        ) == seq![b],
        words(Seq::empty()).len() == 0,
    decreases b.len(),
{
    let s = a + seq![gap] + b;
    if b.len() == 0 {
        assert(s.drop_last() =~= a);
        assert(words(b) =~= Seq::empty());
        assert(words(a) + words(b) =~= words(a));
    } else {
        let front = b.drop_last();
        law_words(a, gap, front);
        assert(s.drop_last() =~= a + seq![gap] + front);
        assert(s.last() == b.last());
        if b.len() == 1 {
            assert(words(front) =~= Seq::empty());
            assert(s[s.len() - 2] == gap);
            assert(b =~= seq![b.last()]);
            assert(words(b) =~= if is_space(b.last()) {
                Seq::empty()
            } else {
                seq![b]
            });
            assert(words(s) =~= words(a) + words(b));
            assert(is_space(b[0]) == is_space(b.last()));
        } else {
            assert(s[s.len() - 2] == b[b.len() - 2]);
            lemma_words_before(front);
            if !is_space(b.last()) && !is_space(b[b.len() - 2]) {
                assert(front.last() == b[b.len() - 2]);
                let w = words(front);
                assert(w.len() > 0);
                let x = w.last().push(b.last());
                assert((words(a) + w).update((words(a) + w).len() - 1, x) =~= words(a) + w.update(
                    w.len() - 1,
                    x,
                ));
            } else {
                assert(words(s) =~= words(a) + words(b));
            }
            if forall|i: int| 0 <= i < b.len() ==> !is_space(#[trigger] b[i]) {
                assert forall|i: int| 0 <= i < front.len() implies !is_space(
                    #[trigger] front[i],
                ) by {
                    assert(front[i] == b[i]);
                }
                assert(words(front) == seq![front]);
                assert(!is_space(b[b.len() - 1]) && !is_space(b[b.len() - 2]));
                assert(front.push(b.last()) =~= b);
                assert(words(b) =~= seq![b]);
            }
        }
    }
}

/// A text that ends within a word has one.
proof fn lemma_words_before(s: Seq<char>)
    ensures
        s.len() > 0 && !is_space(s.last()) ==> words(s).len() > 0,
    decreases s.len(),
{
    if s.len() > 1 {
        lemma_words_before(s.drop_last());
    }
}

/// A carriage return or a line feed parts lines: the lines of two texts with one
/// between them are those of the first and then those of the second. A text
/// without either is one line.
pub proof fn law_lines(a: Seq<char>, end: char, b: Seq<char>)
    requires
        end == '\r' || end == '\n',
    ensures
        lines(a + seq![end] + b) == lines(a) + lines(b),
        !b.contains('\r') && !b.contains('\n') ==> lines(b) == seq![b],
{
    law_lines_of_two(a, end, b);
    if !b.contains('\r') && !b.contains('\n') {
        lemma_split_none(b, line_ends());
    }
}

// ---- numerals -----------------------------------------------------------------

/// The numeral of a number below ten is its digit, and ten times a number and a
/// digit has the numeral of the number and then the digit.
pub proof fn law_numerals_grow(n: nat, d: nat)
    requires
        d < 10,
    ensures
        decimal(d).len() == 1,
        decimal(d)[0] as int == 48 + d,
        n > 0 ==> decimal(10 * n + d) == decimal(n) + decimal(d),
{
    if n > 0 {
        assert((10 * n + d) / 10 == n && (10 * n + d) % 10 == d);
        assert(decimal(10 * n + d) =~= decimal(n) + decimal(d));
    }
}

/// A port is a digit, or one and a digit more, as long as it is no more than the
/// largest; then it is none, with however many digits more.
pub proof fn law_port_digits(s: Seq<char>, c: char)
    requires
        forall|i: int| 0 <= i < s.len() ==> '0' <= (#[trigger] s[i]) <= '9',
        '0' <= c <= '9',
    ensures
        numeral_u16(seq![c]) == Some((c as int - 48) as u16),
        s.len() > 0 ==> match numeral_u16(s) {
            Some(v) => numeral_u16(s.push(c)) == if 10 * v + (c as int - 48) <= 65535 {
                Some((10 * v + (c as int - 48)) as u16)
            } else {
                None
            },
            None => numeral_u16(s.push(c)) is None,
        },
{
    let one = seq![c];
    assert(one.drop_last() =~= Seq::empty());
    assert(digits_value(one.drop_last()) == 0);
    assert(without_plus(one) == one);
    assert forall|i: int| 0 <= i < one.len() implies is_digit(#[trigger] one[i]) by {}
    if s.len() > 0 {
        let t = s.push(c);
        assert('0' <= s[0]);
        assert(t[0] == s[0]);
        assert(without_plus(s) == s && without_plus(t) == t);
        assert(t.drop_last() =~= s);
        assert forall|i: int| 0 <= i < s.len() implies is_digit(#[trigger] s[i]) by {}
        assert forall|i: int| 0 <= i < t.len() implies is_digit(#[trigger] t[i]) by {
            if i < s.len() {
                assert(t[i] == s[i]);
            }
        }
    }
}

/// One plus sign may stand before the digits of a port; with any other character
/// among them, or with no digit, it is none.
pub proof fn law_port_signs(s: Seq<char>)
    ensures
        numeral_u16(Seq::empty()) is None,
        !(s.len() > 0 && s[0] == '+') ==> numeral_u16(seq!['+'] + s) == numeral_u16(s),
        s.len() > 0 && s[0] == '+' ==> numeral_u16(seq!['+'] + s) is None,
        forall|i: int|
            0 < i < s.len() && !('0' <= #[trigger] s[i] <= '9') ==> numeral_u16(s) is None,
        s.len() > 0 && !('0' <= s[0] <= '9') && s[0] != '+' ==> numeral_u16(s) is None,
{
    let t = seq!['+'] + s;
    assert(t.skip(1) =~= s);
    assert(without_plus(t) == s);
    if s.len() > 0 && s[0] == '+' {
        assert(!is_digit(s[0]));
    }
    assert forall|i: int| 0 < i < s.len() && !('0' <= #[trigger] s[i] <= '9') implies numeral_u16(
        s,
    ) is None by {
        let d = without_plus(s);
        if s[0] == '+' {
            assert(!is_digit(d[i - 1]));
        } else {
            assert(!is_digit(d[i]));
        }
    }
    if s.len() > 0 && !('0' <= s[0] <= '9') && s[0] != '+' {
        assert(!is_digit(without_plus(s)[0]));
    }
}

} // verus!
