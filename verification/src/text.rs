//! Text as sequences of characters: searching, splitting, joining, decimal numerals.
use vstd::prelude::*;

verus! {

// ---- characters ---------------------------------------------------------------

/// The characters with the Unicode property `White_Space`.
pub open spec fn is_space(c: char) -> bool {
    ||| '\u{9}' <= c <= '\u{d}'
    ||| c == '\u{20}'
    ||| c == '\u{85}'
    ||| c == '\u{a0}'
    ||| c == '\u{1680}'
    ||| '\u{2000}' <= c <= '\u{200a}'
    ||| c == '\u{2028}'
    ||| c == '\u{2029}'
    ||| c == '\u{202f}'
    ||| c == '\u{205f}'
    ||| c == '\u{3000}'
}

/// Whether `c` is white space.
pub fn space(c: char) -> (r: bool)
    ensures
        r == is_space(c),
{
    ('\u{9}' <= c && c <= '\u{d}') || c == '\u{20}' || c == '\u{85}' || c == '\u{a0}' || c
        == '\u{1680}' || ('\u{2000}' <= c && c <= '\u{200a}') || c == '\u{2028}' || c == '\u{2029}'
        || c == '\u{202f}' || c == '\u{205f}' || c == '\u{3000}'
}

/// A text of white space only, the empty text included.
pub open spec fn is_blank(s: Seq<char>) -> bool {
    forall|i: int| 0 <= i < s.len() ==> is_space(#[trigger] s[i])
}

/// A text without white space.
pub open spec fn is_solid(s: Seq<char>) -> bool {
    forall|i: int| 0 <= i < s.len() ==> !is_space(#[trigger] s[i])
}

/// A text that starts with the character `c`.
pub open spec fn starts_with(s: Seq<char>, c: char) -> bool {
    s.len() > 0 && s[0] == c
}

/// The texts held by a sequence of strings.
pub open spec fn texts(v: Seq<String>) -> Seq<Seq<char>> {
    v.map_values(|s: String| s@)
}

/// The text of an optional string.
pub open spec fn optional(s: Option<&str>) -> Option<Seq<char>> {
    match s {
        Some(t) => Some(t@),
        None => None,
    }
}

/// The characters of `s`, in order.
pub fn chars_of(s: &str) -> (r: Vec<char>)
    ensures
        r@ == s@,
{
    let mut r: Vec<char> = Vec::new();
    for c in it: s.chars()
        invariant
            r@ == s@.take(it.index() as int),
            it.seq() == s@,
    {
        r.push(c);
    }
    r
}

/// Whether `a` and `b` are the same text.
pub fn same_text(a: &str, b: &str) -> (r: bool)
    ensures
        r == (a@ == b@),
{
    a.to_owned() == b.to_owned()
}

/// Whether `s` is white space from end to end.
pub fn blank(s: &str) -> (r: bool)
    ensures
        r == is_blank(s@),
{
    let v = chars_of(s);
    let mut i: usize = 0;
    while i < v.len()
        invariant
            v@ == s@,
            i <= v.len(),
            forall|j: int| 0 <= j < i ==> is_space(#[trigger] s@[j]),
        decreases v.len() - i,
    {
        if !space(v[i]) {
            assert(!is_space(s@[i as int]));
            return false;
        }
        i += 1;
    }
    true
}

/// Whether `s` starts with the character `c`.
pub fn starts(s: &str, c: char) -> (r: bool)
    ensures
        r == starts_with(s@, c),
{
    s.unicode_len() > 0 && s.get_char(0) == c
}

/// Whether `s` begins with the text `pat`.
pub fn begins(s: &str, pat: &str) -> (r: bool)
    ensures
        r == pat@.is_prefix_of(s@),
{
    let v = chars_of(s);
    let p = chars_of(pat);
    p.len() <= v.len() && matches_at(&v, &p, 0)
}

// ---- searching ----------------------------------------------------------------

/// `pat` stands in `s` at position `i`.
pub open spec fn occurs_at(s: Seq<char>, pat: Seq<char>, i: int) -> bool {
    0 <= i && i + pat.len() <= s.len() && s.subrange(i, i + pat.len()) == pat
}

/// The first position, not before `from`, at which `pat` stands in `s`.
pub open spec fn find_from(s: Seq<char>, pat: Seq<char>, from: int) -> Option<int>
    decreases s.len() + 1 - from,
{
    if from < 0 || from + pat.len() > s.len() {
        None
    } else if occurs_at(s, pat, from) {
        Some(from)
    } else {
        find_from(s, pat, from + 1)
    }
}

/// The first position at which `pat` stands in `s`.
pub open spec fn find(s: Seq<char>, pat: Seq<char>) -> Option<int> {
    find_from(s, pat, 0)
}

/// What a search reports is an occurrence with none before it, and it reports
/// nothing only where there is none.
pub proof fn lemma_find_from(s: Seq<char>, pat: Seq<char>, from: int)
    requires
        0 <= from,
    ensures
        match find_from(s, pat, from) {
            Some(i) => {
                &&& from <= i
                &&& occurs_at(s, pat, i)
                &&& forall|j: int| from <= j < i ==> !#[trigger] occurs_at(s, pat, j)
            },
            None => forall|j: int| from <= j ==> !#[trigger] occurs_at(s, pat, j),
        },
    decreases s.len() + 1 - from,
{
    if from + pat.len() <= s.len() && !occurs_at(s, pat, from) {
        lemma_find_from(s, pat, from + 1);
    }
}

/// An occurrence with none before it is what the search reports.
pub proof fn lemma_find_is(s: Seq<char>, pat: Seq<char>, i: int)
    requires
        occurs_at(s, pat, i),
        forall|j: int| 0 <= j < i ==> !#[trigger] occurs_at(s, pat, j),
    ensures
        find(s, pat) == Some(i),
{
    lemma_find_from(s, pat, 0);
}

/// Whether `pat` stands in `v` at position `i`.
fn matches_at(v: &Vec<char>, pat: &Vec<char>, i: usize) -> (r: bool)
    requires
        i + pat.len() <= v.len(),
    ensures
        r == occurs_at(v@, pat@, i as int),
{
    let ghost window = v@.subrange(i as int, i + pat.len());
    let mut k: usize = 0;
    while k < pat.len()
        invariant
            i + pat.len() <= v.len(),
            k <= pat.len(),
            window == v@.subrange(i as int, i + pat.len()),
            forall|j: int| 0 <= j < k ==> window[j] == pat@[j],
        decreases pat.len() - k,
    {
        if v[i + k] != pat[k] {
            assert(window[k as int] != pat@[k as int]);
            return false;
        }
        k += 1;
    }
    assert(window =~= pat@);
    true
}

/// The first position, not before `from`, at which `pat` stands in `v`.
fn search_from(v: &Vec<char>, pat: &Vec<char>, from: usize) -> (r: Option<usize>)
    requires
        from <= v.len(),
    ensures
        match r {
            Some(i) => find_from(v@, pat@, from as int) == Some(i as int),
            None => find_from(v@, pat@, from as int) is None,
        },
{
    let mut i: usize = from;
    while pat.len() <= v.len() - i
        invariant
            from <= i <= v.len(),
            find_from(v@, pat@, from as int) == find_from(v@, pat@, i as int),
        decreases v.len() - i,
    {
        if matches_at(v, pat, i) {
            return Some(i);
        }
        if i == v.len() {
            assert(find_from(v@, pat@, i + 1) is None);
            return None;
        }
        i += 1;
    }
    None
}

/// The first position, counted in characters, at which `pat` stands in `s`.
pub fn search(s: &str, pat: &str) -> (r: Option<usize>)
    ensures
        match r {
            Some(i) => find(s@, pat@) == Some(i as int) && i + pat@.len() <= s@.len(),
            None => find(s@, pat@) is None,
        },
{
    let v = chars_of(s);
    let p = chars_of(pat);
    let r = search_from(&v, &p, 0);
    proof {
        lemma_find_from(s@, pat@, 0);
    }
    r
}

/// The last position of the character `c` in `s`.
pub open spec fn last_index(s: Seq<char>, c: char) -> Option<int>
    decreases s.len(),
{
    if s.len() == 0 {
        None
    } else if s.last() == c {
        Some(s.len() - 1)
    } else {
        last_index(s.drop_last(), c)
    }
}

/// The last position, counted in characters, of `c` in `s`.
pub fn search_last(s: &str, c: char) -> (r: Option<usize>)
    ensures
        match r {
            Some(i) => last_index(s@, c) == Some(i as int) && i < s@.len(),
            None => last_index(s@, c) is None,
        },
{
    let v = chars_of(s);
    let mut i: usize = v.len();
    assert(s@.take(i as int) =~= s@);
    while i > 0
        invariant
            v@ == s@,
            i <= v.len(),
            last_index(s@, c) == last_index(s@.take(i as int), c),
        decreases i,
    {
        assert(s@.take(i as int).drop_last() =~= s@.take(i - 1));
        if v[i - 1] == c {
            return Some(i - 1);
        }
        i -= 1;
    }
    None
}

// ---- splitting ----------------------------------------------------------------

/// The longest runs of characters other than white space, in order.
pub open spec fn words(s: Seq<char>) -> Seq<Seq<char>>
    decreases s.len(),
{
    if s.len() == 0 {
        Seq::empty()
    } else {
        let before = words(s.drop_last());
        if is_space(s.last()) {
            before
        } else if s.len() == 1 || is_space(s[s.len() - 2]) {
            before.push(seq![s.last()])
        } else {
            before.update(before.len() - 1, before.last().push(s.last()))
        }
    }
}

/// The words of `s`, in order.
pub fn words_of(s: &str) -> (r: Vec<String>)
    ensures
        texts(r@) == words(s@),
{
    let v = chars_of(s);
    let mut r: Vec<String> = Vec::new();
    let mut inside: bool = false;
    let mut start: usize = 0;
    let mut i: usize = 0;
    while i < v.len()
        invariant
            v@ == s@,
            start <= i <= v.len(),
            inside ==> start < i && !is_space(s@[i - 1]),
            !inside ==> i == 0 || is_space(s@[i - 1]),
            words(s@.take(i as int)) == if inside {
                texts(r@).push(s@.subrange(start as int, i as int))
            } else {
                texts(r@)
            },
        decreases v.len() - i,
    {
        let ghost now = s@.take(i as int);
        let ghost next = s@.take(i + 1);
        let ghost done = texts(r@);
        assert(next.drop_last() =~= now);
        if space(v[i]) {
            if inside {
                let word = s.substring_char(start, i).to_owned();
                r.push(word);
                assert(texts(r@) =~= done.push(s@.subrange(start as int, i as int)));
            }
            inside = false;
        } else {
            if !inside {
                start = i;
                assert(s@.subrange(i as int, i + 1) =~= seq![next.last()]);
            } else {
                let ghost run = s@.subrange(start as int, i as int);
                assert(s@.subrange(start as int, i + 1) =~= run.push(next.last()));
                assert(done.push(run).update(done.len() as int, run.push(next.last()))
                    =~= done.push(run.push(next.last())));
            }
            inside = true;
        }
        i += 1;
    }
    assert(s@.take(i as int) =~= s@);
    if inside {
        let ghost done = texts(r@);
        let word = s.substring_char(start, i).to_owned();
        r.push(word);
        assert(texts(r@) =~= done.push(s@.subrange(start as int, i as int)));
    }
    r
}

/// Where in `s` the first character stands that `at` picks out.
pub open spec fn is_first(s: Seq<char>, at: spec_fn(char) -> bool, i: int) -> bool {
    &&& 0 <= i < s.len()
    &&& at(s[i])
    &&& forall|j: int| 0 <= j < i ==> !at(#[trigger] s[j])
}

/// What stands between the characters of `s` that `at` picks out, before the
/// first and after the last, in order.
pub open spec fn split(s: Seq<char>, at: spec_fn(char) -> bool) -> Seq<Seq<char>>
    decreases s.len(),
{
    if exists|i: int| is_first(s, at, i) {
        let i = choose|i: int| is_first(s, at, i);
        seq![s.take(i)] + split(s.skip(i + 1), at)
    } else {
        seq![s]
    }
}

/// A text is split at the first character that is picked out.
pub proof fn lemma_split_first(s: Seq<char>, at: spec_fn(char) -> bool, i: int)
    requires
        is_first(s, at, i),
    ensures
        split(s, at) == seq![s.take(i)] + split(s.skip(i + 1), at),
{
    let k = choose|k: int| is_first(s, at, k);
    assert(is_first(s, at, k));
    if k < i {
        assert(!at(s[k]));
    } else if i < k {
        assert(!at(s[i]));
    }
}

/// A text in which no character is picked out stays whole.
pub proof fn lemma_split_none(s: Seq<char>, at: spec_fn(char) -> bool)
    requires
        forall|j: int| 0 <= j < s.len() ==> !at(#[trigger] s[j]),
    ensures
        split(s, at) == seq![s],
{
}

/// Where a character of a text is picked out, one is the first.
pub proof fn lemma_first_exists(s: Seq<char>, at: spec_fn(char) -> bool, k: int) -> (i: int)
    requires
        0 <= k < s.len(),
        at(s[k]),
    ensures
        i <= k,
        is_first(s, at, i),
    decreases k,
{
    if exists|j: int| 0 <= j < k && at(#[trigger] s[j]) {
        let j = choose|j: int| 0 <= j < k && at(#[trigger] s[j]);
        lemma_first_exists(s, at, j)
    } else {
        k
    }
}

/// Carriage return and line feed.
pub open spec fn is_line_end(c: char) -> bool {
    c == '\r' || c == '\n'
}

/// What picks out the ends of lines.
pub open spec fn line_ends() -> spec_fn(char) -> bool {
    |c: char| is_line_end(c)
}

/// The lines of `s`: what stands between its carriage returns and line feeds,
/// before the first and after the last. Between a carriage return and the line
/// feed that follows it there is an empty line.
pub open spec fn lines(s: Seq<char>) -> Seq<Seq<char>> {
    split(s, line_ends())
}

/// A text without carriage return and line feed.
pub open spec fn is_one_line(s: Seq<char>) -> bool {
    forall|i: int| 0 <= i < s.len() ==> !is_line_end(#[trigger] s[i])
}

/// The lines of `s`, in order.
pub fn lines_of(s: &str) -> (r: Vec<String>)
    ensures
        texts(r@) == lines(s@),
{
    let v = chars_of(s);
    let mut r: Vec<String> = Vec::new();
    let mut start: usize = 0;
    let mut i: usize = 0;
    assert(s@.skip(0) =~= s@);
    assert(texts(r@) + lines(s@) =~= lines(s@));
    while i < v.len()
        invariant
            v@ == s@,
            start <= i <= v.len(),
            forall|j: int| start <= j < i ==> !is_line_end(#[trigger] s@[j]),
            texts(r@) + lines(s@.skip(start as int)) == lines(s@),
        decreases v.len() - i,
    {
        if v[i] == '\r' || v[i] == '\n' {
            let ghost done = texts(r@);
            let ghost rest = s@.skip(start as int);
            let line = s.substring_char(start, i).to_owned();
            r.push(line);
            proof {
                assert(is_first(rest, line_ends(), i - start));
                lemma_split_first(rest, line_ends(), i - start);
                assert(line@ =~= rest.take(i - start));
                assert(s@.skip(i + 1) =~= rest.skip(i - start + 1));
                assert(texts(r@) =~= done.push(line@));
                assert(done.push(line@) + lines(s@.skip(i + 1)) =~= done + (seq![line@] + lines(
                    s@.skip(i + 1),
                )));
            }
            start = i + 1;
        }
        i += 1;
    }
    let ghost done = texts(r@);
    let line = s.substring_char(start, i).to_owned();
    r.push(line);
    proof {
        lemma_split_none(s@.skip(start as int), line_ends());
        assert(line@ =~= s@.skip(start as int));
        assert(texts(r@) =~= done + seq![line@]);
    }
    r
}

// ---- joining ------------------------------------------------------------------

/// The texts of `parts` in order, with `sep` between neighbours.
pub open spec fn join(parts: Seq<Seq<char>>, sep: Seq<char>) -> Seq<char>
    decreases parts.len(),
{
    if parts.len() == 0 {
        Seq::empty()
    } else if parts.len() == 1 {
        parts[0]
    } else {
        join(parts.drop_last(), sep) + sep + parts.last()
    }
}

/// `parts` in order, with `sep` between neighbours.
pub fn joined(parts: &Vec<String>, sep: &str) -> (r: String)
    ensures
        r@ == join(texts(parts@), sep@),
{
    let mut r = String::new();
    let ghost all = texts(parts@);
    let mut i: usize = 0;
    while i < parts.len()
        invariant
            i <= parts.len(),
            all == texts(parts@),
            r@ == join(all.take(i as int), sep@),
        decreases parts.len() - i,
    {
        assert(all.take(i + 1).drop_last() =~= all.take(i as int));
        if i > 0 {
            r.append(sep);
            r.append(parts[i].as_str());
        } else {
            r.append(parts[i].as_str());
            assert(r@ =~= parts@[0]@);
        }
        i += 1;
    }
    assert(all.take(i as int) =~= all);
    r
}

// ---- numerals -----------------------------------------------------------------

/// The character of a decimal digit.
pub open spec fn digit(d: nat) -> char {
    (d + '0' as int) as char
}

/// The decimal numeral of `n`.
pub open spec fn decimal(n: nat) -> Seq<char>
    decreases n,
{
    if n < 10 {
        seq![digit(n)]
    } else {
        decimal(n / 10).push(digit(n % 10))
    }
}

/// The numeral of one digit.
fn digit_text(d: usize) -> (r: &'static str)
    requires
        d < 10,
    ensures
        r@ == seq![digit(d as nat)],
{
    proof {
        reveal_strlit("0");
        reveal_strlit("1");
        reveal_strlit("2");
        reveal_strlit("3");
        reveal_strlit("4");
        reveal_strlit("5");
        reveal_strlit("6");
        reveal_strlit("7");
        reveal_strlit("8");
        reveal_strlit("9");
    }
    let r = if d == 0 {
        "0"
    } else if d == 1 {
        "1"
    } else if d == 2 {
        "2"
    } else if d == 3 {
        "3"
    } else if d == 4 {
        "4"
    } else if d == 5 {
        "5"
    } else if d == 6 {
        "6"
    } else if d == 7 {
        "7"
    } else if d == 8 {
        "8"
    } else {
        "9"
    };
    assert(r@ =~= seq![digit(d as nat)]);
    r
}

/// The decimal numeral of `n`.
pub fn decimal_of(n: usize) -> (r: String)
    ensures
        r@ == decimal(n as nat),
    decreases n,
{
    if n < 10 {
        digit_text(n).to_owned()
    } else {
        let mut r = decimal_of(n / 10);
        let ghost high = r@;
        r.append(digit_text(n % 10));
        assert(r@ =~= high.push(digit((n % 10) as nat)));
        r
    }
}

/// A decimal digit.
pub open spec fn is_digit(c: char) -> bool {
    '0' <= c <= '9'
}

/// The number that a row of decimal digits denotes.
pub open spec fn digits_value(s: Seq<char>) -> nat
    decreases s.len(),
{
    if s.len() == 0 {
        0
    } else {
        10 * digits_value(s.drop_last()) + (s.last() as int - '0' as int) as nat
    }
}

/// `s` without one leading plus sign.
pub open spec fn without_plus(s: Seq<char>) -> Seq<char> {
    if starts_with(s, '+') {
        s.skip(1)
    } else {
        s
    }
}

/// The 16-bit number that `s` denotes: an optional plus sign, then digits and
/// nothing else, at least one, for a number up to 65535.
pub open spec fn numeral_u16(s: Seq<char>) -> Option<u16> {
    let d = without_plus(s);
    if d.len() > 0 && (forall|i: int| 0 <= i < d.len() ==> is_digit(#[trigger] d[i]))
        && digits_value(d) <= u16::MAX {
        Some(digits_value(d) as u16)
    } else {
        None
    }
}

/// A number does not shrink as digits are added to it.
proof fn lemma_digits_grow(s: Seq<char>, n: int)
    requires
        0 <= n <= s.len(),
    ensures
        digits_value(s.take(n)) <= digits_value(s),
    decreases s.len() - n,
{
    if n < s.len() {
        lemma_digits_grow(s, n + 1);
        assert(s.take(n + 1).drop_last() =~= s.take(n));
    } else {
        assert(s.take(n) =~= s);
    }
}

/// Reads a 16-bit number.
pub fn parse_u16(s: &str) -> (r: Option<u16>)
    ensures
        r == numeral_u16(s@),
{
    let v = chars_of(s);
    let ghost d = without_plus(s@);
    let first: usize = if v.len() > 0 && v[0] == '+' {
        1
    } else {
        0
    };
    if first == v.len() {
        return None;
    }
    let mut n: u32 = 0;
    let mut i: usize = first;
    assert(d.take(0) =~= Seq::empty());
    while i < v.len()
        invariant
            v@ == s@,
            d == without_plus(s@),
            first <= i <= v.len(),
            first < v.len(),
            d.len() == v.len() - first,
            forall|j: int| 0 <= j < d.len() ==> d[j] == s@[first + j],
            forall|j: int| 0 <= j < i - first ==> is_digit(#[trigger] d[j]),
            n == digits_value(d.take(i - first)),
            n <= u16::MAX,
        decreases v.len() - i,
    {
        let c = v[i];
        assert(c == d[i - first]);
        if !('0' <= c && c <= '9') {
            return None;
        }
        let ghost k = i - first;
        assert(d.take(k + 1).drop_last() =~= d.take(k));
        n = 10 * n + (c as u32 - '0' as u32);
        if n > 65535 {
            proof {
                lemma_digits_grow(d, k + 1);
            }
            return None;
        }
        i += 1;
    }
    assert(d.take(i - first) =~= d);
    Some(n as u16)
}

} // verus!
