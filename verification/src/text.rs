//! Character sequences: searching, splitting, numbers in decimal and ordering.
//!
//! Text is modelled as `Seq<char>`, the view of `str` and `String`. Executable
//! functions that take text apart work on a vector of its characters.

use vstd::prelude::*;

verus! {

/// `String::push` appends one character to the end of the string.
pub assume_specification[ String::push ](s: &mut String, c: char)
    ensures
        final(s)@ == old(s)@.push(c),
;

/// The characters of `s`, in order.
pub fn chars_of(s: &str) -> (v: Vec<char>)
    ensures
        v@ == s@,
{
    let mut v: Vec<char> = Vec::new();
    for c in it: s.chars()
        invariant
            it.seq() == s@,
            v@ == s@.take(it.index() as int),
    {
        proof {
            assert(s@.take(it.index() as int).push(s@[it.index() as int]) == s@.take(
                it.index() as int + 1,
            ));
        }
        v.push(c);
    }
    proof {
        assert(s@.take(s@.len() as int) == s@);
    }
    v
}

/// The text made of the characters of `v` from `from` up to `to`.
pub fn text_between(v: &Vec<char>, from: usize, to: usize) -> (s: String)
    requires
        from <= to <= v@.len(),
    ensures
        s@ == v@.subrange(from as int, to as int),
{
    let mut s: String = String::new();
    let mut i: usize = from;
    while i < to
        invariant
            from <= i <= to <= v@.len(),
            s@ == v@.subrange(from as int, i as int),
        decreases to - i,
    {
        proof {
            assert(v@.subrange(from as int, i as int).push(v@[i as int]) == v@.subrange(
                from as int,
                i as int + 1,
            ));
        }
        s.push(v[i]);
        i += 1;
    }
    s
}

/// Whether two texts are the same.
pub fn same(a: &str, b: &str) -> (r: bool)
    ensures
        r == (a@ == b@),
{
    a.to_owned() == b.to_owned()
}

// ---------------------------------------------------------------------------
// Finding a character
// ---------------------------------------------------------------------------

/// The index of the first `c` in `s`, or the length of `s` if there is none.
pub open spec fn find(s: Seq<char>, c: char) -> int
    decreases s.len(),
{
    if s.len() == 0 {
        0
    } else if s[0] == c {
        0
    } else {
        1 + find(s.skip(1), c)
    }
}

/// `find` stops at the first occurrence and nowhere else.
pub proof fn lemma_find(s: Seq<char>, c: char)
    ensures
        0 <= find(s, c) <= s.len(),
        forall|j: int| 0 <= j < find(s, c) ==> s[j] != c,
        find(s, c) < s.len() ==> s[find(s, c)] == c,
    decreases s.len(),
{
    if s.len() > 0 && s[0] != c {
        lemma_find(s.skip(1), c);
        assert forall|j: int| 0 <= j < find(s, c) implies s[j] != c by {
            if j > 0 {
                assert(s.skip(1)[j - 1] == s[j]);
            }
        }
    }
}

/// An index with the properties of the first occurrence is the first occurrence.
pub proof fn lemma_find_is(s: Seq<char>, c: char, i: int)
    requires
        0 <= i <= s.len(),
        forall|j: int| 0 <= j < i ==> s[j] != c,
        i < s.len() ==> s[i] == c,
    ensures
        find(s, c) == i,
{
    lemma_find(s, c);
    let f = find(s, c);
    if f < i {
        assert(s[f] != c);
    }
}

/// The index of the first `c` in `v` at or after `from`, or the length of `v`.
pub fn find_from(v: &Vec<char>, c: char, from: usize) -> (i: usize)
    requires
        from <= v@.len(),
    ensures
        from <= i <= v@.len(),
        i == from + find(v@.skip(from as int), c),
{
    let mut i: usize = from;
    while i < v.len() && v[i] != c
        invariant
            from <= i <= v@.len(),
            forall|j: int| from <= j < i ==> v@[j] != c,
        decreases v@.len() - i,
    {
        i += 1;
    }
    proof {
        lemma_find_is(v@.skip(from as int), c, i - from);
    }
    i
}

// ---------------------------------------------------------------------------
// Splitting
// ---------------------------------------------------------------------------

/// The pieces of `s` between the separators `c`; never empty.
pub open spec fn split(s: Seq<char>, c: char) -> Seq<Seq<char>>
    decreases s.len(),
{
    let i = find(s, c);
    if 0 <= i < s.len() {
        seq![s.take(i)] + split(s.skip(i + 1), c)
    } else {
        seq![s]
    }
}

/// The characters of each vector.
pub open spec fn texts(v: Seq<Vec<char>>) -> Seq<Seq<char>> {
    v.map_values(|x: Vec<char>| x@)
}

/// The texts of a list.
pub open spec fn views(v: Seq<String>) -> Seq<Seq<char>> {
    Seq::new(v.len(), |i: int| v[i]@)
}

/// An optional text.
pub open spec fn text_of(t: Option<String>) -> Option<Seq<char>> {
    match t {
        Some(s) => Some(s@),
        None => None,
    }
}

/// A copy of the characters of `v` from `from` up to `to`.
pub fn chars_between(v: &Vec<char>, from: usize, to: usize) -> (r: Vec<char>)
    requires
        from <= to <= v@.len(),
    ensures
        r@ == v@.subrange(from as int, to as int),
{
    let mut r: Vec<char> = Vec::new();
    let mut i: usize = from;
    while i < to
        invariant
            from <= i <= to <= v@.len(),
            r@ == v@.subrange(from as int, i as int),
        decreases to - i,
    {
        proof {
            assert(v@.subrange(from as int, i as int).push(v@[i as int]) == v@.subrange(
                from as int,
                i as int + 1,
            ));
        }
        r.push(v[i]);
        i += 1;
    }
    r
}

/// The pieces of `v` between the separators `c`.
pub fn split_on(v: &Vec<char>, c: char) -> (pieces: Vec<Vec<char>>)
    ensures
        texts(pieces@) == split(v@, c),
        pieces@.len() > 0,
{
    let mut pieces: Vec<Vec<char>> = Vec::new();
    let mut start: usize = 0;
    proof {
        assert(v@.skip(0) == v@);
        assert(texts(pieces@) + split(v@, c) == split(v@, c));
    }
    loop
        invariant_except_break
            start <= v@.len(),
            texts(pieces@) + split(v@.skip(start as int), c) == split(v@, c),
        ensures
            texts(pieces@) == split(v@, c),
            pieces@.len() > 0,
        decreases v@.len() - start,
    {
        let rest = Ghost(v@.skip(start as int));
        let end = find_from(v, c, start);
        let piece = chars_between(v, start, end);
        let before = Ghost(pieces@);
        pieces.push(piece);
        proof {
            lemma_find(rest@, c);
            assert(rest@.take(end - start) == piece@);
            assert(texts(pieces@) == texts(before@).push(piece@));
        }
        if end == v.len() {
            proof {
                assert(rest@ == piece@);
                assert(split(rest@, c) == seq![rest@]);
                assert(texts(before@) + seq![rest@] == texts(pieces@));
            }
            break;
        }
        proof {
            assert(rest@.skip(end - start + 1) == v@.skip(end as int + 1));
            assert(texts(before@) + (seq![piece@] + split(v@.skip(end as int + 1), c)) == texts(
                pieces@,
            ) + split(v@.skip(end as int + 1), c));
        }
        start = end + 1;
    }
    pieces
}

// ---------------------------------------------------------------------------
// Lines and whitespace
// ---------------------------------------------------------------------------

/// A line without the carriage return that came before its line feed.
pub open spec fn without_cr(s: Seq<char>) -> Seq<char> {
    if s.len() > 0 && s.last() == '\r' {
        s.drop_last()
    } else {
        s
    }
}

/// The lines of `s`: ended by a line feed, or by a carriage return and a line
/// feed. The last line need not be ended.
pub open spec fn lines(s: Seq<char>) -> Seq<Seq<char>>
    decreases s.len(),
{
    if s.len() == 0 {
        Seq::empty()
    } else {
        let i = find(s, '\n');
        if 0 <= i < s.len() {
            seq![without_cr(s.take(i))] + lines(s.skip(i + 1))
        } else {
            seq![s]
        }
    }
}

/// The first line of `s`; empty if `s` is.
pub open spec fn first_line(s: Seq<char>) -> Seq<char> {
    if lines(s).len() == 0 {
        Seq::empty()
    } else {
        lines(s)[0]
    }
}

/// The lines of `v`.
pub fn lines_of(v: &Vec<char>) -> (r: Vec<Vec<char>>)
    ensures
        texts(r@) == lines(v@),
{
    let mut r: Vec<Vec<char>> = Vec::new();
    let mut start: usize = 0;
    proof {
        assert(v@.skip(0) == v@);
        assert(texts(r@) + lines(v@) == lines(v@));
    }
    while start < v.len()
        invariant
            start <= v@.len(),
            texts(r@) + lines(v@.skip(start as int)) == lines(v@),
        decreases v@.len() - start,
    {
        let rest = Ghost(v@.skip(start as int));
        let before = Ghost(r@);
        let end = find_from(v, '\n', start);
        proof {
            lemma_find(rest@, '\n');
            assert(rest@.take(end - start) == v@.subrange(start as int, end as int));
        }
        if end == v.len() {
            let piece = chars_between(v, start, end);
            r.push(piece);
            proof {
                assert(piece@ == rest@);
                assert(texts(r@) == texts(before@).push(piece@));
                assert(texts(before@) + seq![rest@] == texts(r@));
                assert(v@.skip(v@.len() as int).len() == 0);
                assert(texts(r@) + lines(v@.skip(v@.len() as int)) == texts(r@));
            }
            start = end;
        } else {
            let stop = if end > start && v[end - 1] == '\r' {
                end - 1
            } else {
                end
            };
            let piece = chars_between(v, start, stop);
            r.push(piece);
            proof {
                let line = rest@.take(end - start);
                assert(piece@ == without_cr(line));
                assert(texts(r@) == texts(before@).push(piece@));
                assert(rest@.skip(end - start + 1) == v@.skip(end as int + 1));
                assert(texts(before@) + (seq![piece@] + lines(v@.skip(end as int + 1))) == texts(r@)
                    + lines(v@.skip(end as int + 1)));
            }
            start = end + 1;
        }
    }
    proof {
        assert(v@.skip(start as int).len() == 0);
        assert(texts(r@) + lines(v@.skip(start as int)) == texts(r@));
    }
    r
}

/// The first line of `v`.
pub fn first_line_of(v: &Vec<char>) -> (line: Vec<char>)
    ensures
        line@ == first_line(v@),
{
    if v.len() == 0 {
        return Vec::new();
    }
    let end = find_from(v, '\n', 0);
    proof {
        assert(v@.skip(0) == v@);
        lemma_find(v@, '\n');
        assert(v@.take(end as int) == v@.subrange(0, end as int));
    }
    if end == v.len() {
        proof {
            assert(v@.subrange(0, end as int) == v@);
        }
        chars_between(v, 0, end)
    } else if end > 0 && v[end - 1] == '\r' {
        proof {
            assert(v@.take(end as int).drop_last() == v@.subrange(0, end - 1));
        }
        chars_between(v, 0, end - 1)
    } else {
        chars_between(v, 0, end)
    }
}

/// The characters with Unicode's `White_Space` property.
pub open spec fn is_space(c: char) -> bool {
    ||| '\u{9}' <= c <= '\u{d}'
    ||| c == '\u{20}'
    ||| c == '\u{85}'
    ||| c == '\u{a0}'
    ||| c == '\u{1680}'
    ||| '\u{2000}' <= c <= '\u{200a}'
    ||| c == '\u{2028}'
    ||| c == '\u{2029}'
    ||| c == '\u{202f}'
    ||| c == '\u{205f}'
    ||| c == '\u{3000}'
}

/// Whether `c` has Unicode's `White_Space` property.
pub fn is_space_char(c: char) -> (r: bool)
    ensures
        r == is_space(c),
{
    ('\u{9}' <= c && c <= '\u{d}') || c == '\u{20}' || c == '\u{85}' || c == '\u{a0}' || c
        == '\u{1680}' || ('\u{2000}' <= c && c <= '\u{200a}') || c == '\u{2028}' || c == '\u{2029}'
        || c == '\u{202f}' || c == '\u{205f}' || c == '\u{3000}'
}

/// `s` without the whitespace at its start.
pub open spec fn trim_start(s: Seq<char>) -> Seq<char>
    decreases s.len(),
{
    if s.len() > 0 && is_space(s[0]) {
        trim_start(s.skip(1))
    } else {
        s
    }
}

/// `s` without the whitespace at its end.
pub open spec fn trim_end(s: Seq<char>) -> Seq<char>
    decreases s.len(),
{
    if s.len() > 0 && is_space(s.last()) {
        trim_end(s.drop_last())
    } else {
        s
    }
}

/// `v` without the whitespace at its start and at its end.
pub fn trimmed(v: &Vec<char>) -> (r: Vec<char>)
    ensures
        r@ == trim_end(trim_start(v@)),
{
    let mut start: usize = 0;
    proof {
        assert(v@.skip(0) == v@);
    }
    while start < v.len() && is_space_char(v[start])
        invariant
            start <= v@.len(),
            trim_start(v@.skip(start as int)) == trim_start(v@),
        decreases v@.len() - start,
    {
        proof {
            assert(v@.skip(start as int).skip(1) == v@.skip(start as int + 1));
        }
        start += 1;
    }
    let ghost rest = v@.skip(start as int);
    proof {
        assert(trim_start(v@) == rest);
    }
    let mut end: usize = v.len();
    proof {
        assert(v@.subrange(start as int, end as int) == rest);
    }
    while end > start && is_space_char(v[end - 1])
        invariant
            start <= end <= v@.len(),
            trim_end(v@.subrange(start as int, end as int)) == trim_end(rest),
        decreases end,
    {
        proof {
            assert(v@.subrange(start as int, end as int).drop_last() == v@.subrange(
                start as int,
                end - 1,
            ));
        }
        end -= 1;
    }
    proof {
        assert(trim_end(v@.subrange(start as int, end as int)) == v@.subrange(
            start as int,
            end as int,
        ));
    }
    chars_between(v, start, end)
}

/// The longest prefix of `s` without whitespace.
pub open spec fn word_prefix(s: Seq<char>) -> Seq<char>
    decreases s.len(),
{
    if s.len() > 0 && !is_space(s[0]) {
        seq![s[0]] + word_prefix(s.skip(1))
    } else {
        Seq::empty()
    }
}

/// The first word of `s` by whitespace; empty if there is none.
pub open spec fn first_word(s: Seq<char>) -> Seq<char> {
    word_prefix(trim_start(s))
}

/// The first word of `v` by whitespace.
pub fn first_word_of(v: &Vec<char>) -> (word: String)
    ensures
        word@ == first_word(v@),
{
    let mut start: usize = 0;
    proof {
        assert(v@.skip(0) == v@);
    }
    while start < v.len() && is_space_char(v[start])
        invariant
            start <= v@.len(),
            trim_start(v@.skip(start as int)) == trim_start(v@),
        decreases v@.len() - start,
    {
        proof {
            assert(v@.skip(start as int).skip(1) == v@.skip(start as int + 1));
        }
        start += 1;
    }
    let ghost rest = v@.skip(start as int);
    proof {
        assert(trim_start(v@) == rest);
    }
    let mut end: usize = start;
    proof {
        assert(v@.subrange(start as int, start as int) + word_prefix(rest) == word_prefix(rest));
    }
    while end < v.len() && !is_space_char(v[end])
        invariant
            start <= end <= v@.len(),
            v@.subrange(start as int, end as int) + word_prefix(v@.skip(end as int)) == word_prefix(
                rest,
            ),
        decreases v@.len() - end,
    {
        proof {
            let tail = v@.skip(end as int);
            assert(tail.skip(1) == v@.skip(end as int + 1));
            assert(v@.subrange(start as int, end as int) + (seq![tail[0]] + word_prefix(
                tail.skip(1),
            )) == v@.subrange(start as int, end as int + 1) + word_prefix(tail.skip(1)));
        }
        end += 1;
    }
    proof {
        assert(word_prefix(v@.skip(end as int)) == Seq::<char>::empty());
        assert(v@.subrange(start as int, end as int) + Seq::<char>::empty() == v@.subrange(
            start as int,
            end as int,
        ));
    }
    text_between(v, start, end)
}

/// `s` without the characters `c` at its start.
pub open spec fn trim_leading(s: Seq<char>, c: char) -> Seq<char>
    decreases s.len(),
{
    if s.len() > 0 && s[0] == c {
        trim_leading(s.skip(1), c)
    } else {
        s
    }
}

/// The text `s` without the characters `c` at its start.
pub fn without_leading(s: &str, c: char) -> (r: String)
    ensures
        r@ == trim_leading(s@, c),
{
    let v = chars_of(s);
    let mut start: usize = 0;
    proof {
        assert(v@.skip(0) == v@);
    }
    while start < v.len() && v[start] == c
        invariant
            start <= v@.len(),
            trim_leading(v@.skip(start as int), c) == trim_leading(v@, c),
        decreases v@.len() - start,
    {
        proof {
            assert(v@.skip(start as int).skip(1) == v@.skip(start as int + 1));
        }
        start += 1;
    }
    proof {
        assert(v@.skip(start as int) == v@.subrange(start as int, v@.len() as int));
    }
    text_between(&v, start, v.len())
}

// ---------------------------------------------------------------------------
// Subsequences
// ---------------------------------------------------------------------------

/// Whether `needle` stands in `s` at index `i`.
pub open spec fn occurs_at<A>(s: Seq<A>, needle: Seq<A>, i: int) -> bool {
    0 <= i && i + needle.len() <= s.len() && s.subrange(i, i + needle.len()) == needle
}

/// Whether `needle` stands anywhere in `s`.
pub open spec fn contains<A>(s: Seq<A>, needle: Seq<A>) -> bool {
    exists|i: int| occurs_at(s, needle, i)
}

/// Whether `s` begins with `prefix`.
pub open spec fn starts_with(s: Seq<char>, prefix: Seq<char>) -> bool {
    occurs_at(s, prefix, 0)
}

/// Whether `needle` stands in `v` at index `i`.
fn matches_at(v: &Vec<char>, needle: &Vec<char>, i: usize) -> (r: bool)
    requires
        i <= v@.len(),
    ensures
        r == occurs_at(v@, needle@, i as int),
{
    if needle.len() > v.len() - i {
        return false;
    }
    let mut j: usize = 0;
    while j < needle.len()
        invariant
            j <= needle@.len(),
            i + needle@.len() <= v.len(),
            forall|k: int| 0 <= k < j ==> v@[i + k] == needle@[k],
        decreases needle@.len() - j,
    {
        if v[i + j] != needle[j] {
            proof {
                assert(v@.subrange(i as int, i + needle@.len())[j as int] == v@[i + j]);
            }
            return false;
        }
        j += 1;
    }
    proof {
        assert(v@.subrange(i as int, i + needle@.len()) == needle@);
    }
    true
}

/// Whether the text `needle` stands anywhere in the text `s`.
pub fn text_contains(s: &str, needle: &str) -> (r: bool)
    ensures
        r == contains(s@, needle@),
{
    let v = chars_of(s);
    let n = chars_of(needle);
    let mut i: usize = 0;
    while i < v.len()
        invariant
            i <= v@.len(),
            v@ == s@,
            n@ == needle@,
            forall|k: int| 0 <= k < i ==> !occurs_at(v@, n@, k),
        decreases v@.len() - i,
    {
        if matches_at(&v, &n, i) {
            return true;
        }
        i += 1;
    }
    matches_at(&v, &n, i)
}

/// Whether the text `s` begins with the text `prefix`.
pub fn text_starts_with(s: &str, prefix: &str) -> (r: bool)
    ensures
        r == starts_with(s@, prefix@),
{
    let v = chars_of(s);
    let p = chars_of(prefix);
    matches_at(&v, &p, 0)
}

/// What follows `prefix` in `s`, if `s` begins with it.
pub fn text_after(s: &str, prefix: &str) -> (r: Option<String>)
    ensures
        match r {
            Some(rest) => starts_with(s@, prefix@) && rest@ == s@.skip(prefix@.len() as int),
            None => !starts_with(s@, prefix@),
        },
{
    let v = chars_of(s);
    let p = chars_of(prefix);
    if matches_at(&v, &p, 0) {
        proof {
            assert(v@.skip(p@.len() as int) == v@.subrange(p@.len() as int, v@.len() as int));
        }
        Some(text_between(&v, p.len(), v.len()))
    } else {
        None
    }
}

// ---------------------------------------------------------------------------
// Numbers
// ---------------------------------------------------------------------------

/// Whether `c` is a decimal digit.
pub open spec fn is_digit(c: char) -> bool {
    '0' <= c <= '9'
}

/// The value of a decimal digit.
pub open spec fn digit_value(c: char) -> int {
    c as int - '0' as int
}

/// The value of a row of decimal digits.
pub open spec fn digits_value(s: Seq<char>) -> int
    decreases s.len(),
{
    if s.len() == 0 {
        0
    } else {
        digits_value(s.drop_last()) * 10 + digit_value(s.last())
    }
}

/// Whether `s` is one or more decimal digits.
pub open spec fn all_digits(s: Seq<char>) -> bool {
    s.len() > 0 && forall|i: int| 0 <= i < s.len() ==> is_digit(#[trigger] s[i])
}

/// The digits of a number that may be written with a plus sign.
pub open spec fn unsigned_digits(s: Seq<char>) -> Seq<char> {
    if s.len() > 0 && s[0] == '+' {
        s.skip(1)
    } else {
        s
    }
}

/// The number that `s` writes in decimal, if it writes one of at most `max`.
pub open spec fn parse_unsigned(s: Seq<char>, max: int) -> Option<int> {
    let d = unsigned_digits(s);
    if all_digits(d) && digits_value(d) <= max {
        Some(digits_value(d))
    } else {
        None
    }
}

proof fn lemma_digits_value_bounds(s: Seq<char>)
    requires
        forall|i: int| 0 <= i < s.len() ==> is_digit(#[trigger] s[i]),
    ensures
        digits_value(s) >= 0,
    decreases s.len(),
{
    if s.len() > 0 {
        assert forall|i: int| 0 <= i < s.drop_last().len() implies is_digit(
            #[trigger] s.drop_last()[i],
        ) by {
            assert(s.drop_last()[i] == s[i]);
        }
        lemma_digits_value_bounds(s.drop_last());
        assert(is_digit(s[s.len() - 1]));
    }
}

proof fn lemma_digits_value_grows(s: Seq<char>, n: int)
    requires
        forall|i: int| 0 <= i < s.len() ==> is_digit(#[trigger] s[i]),
        0 <= n <= s.len(),
    ensures
        digits_value(s.take(n)) <= digits_value(s),
    decreases s.len() - n,
{
    if n < s.len() {
        lemma_digits_value_grows(s, n + 1);
        let t = s.take(n + 1);
        assert(t.drop_last() == s.take(n));
        assert(is_digit(s[n]));
        assert(t.last() == s[n]);
        assert forall|i: int| 0 <= i < s.take(n).len() implies is_digit(#[trigger] s.take(n)[i]) by {
            assert(s.take(n)[i] == s[i]);
        }
        lemma_digits_value_bounds(s.take(n));
    } else {
        assert(s.take(n) == s);
    }
}

/// The value of a decimal digit.
fn digit_of(c: char) -> (d: u64)
    requires
        is_digit(c),
    ensures
        d == digit_value(c),
{
    (c as u32 - '0' as u32) as u64
}

/// The number that `v` writes in decimal, if it writes one of at most `max`.
pub fn parse_number(v: &Vec<char>, max: u64) -> (r: Option<u64>)
    ensures
        match r {
            Some(n) => parse_unsigned(v@, max as int) == Some(n as int),
            None => parse_unsigned(v@, max as int) is None,
        },
{
    let start: usize = if v.len() > 0 && v[0] == '+' {
        1
    } else {
        0
    };
    let ghost d = unsigned_digits(v@);
    proof {
        assert(d == v@.skip(start as int));
    }
    if start == v.len() {
        return None;
    }
    let mut n: u64 = 0;
    let mut i: usize = start;
    proof {
        assert(d.take(0).len() == 0);
    }
    while i < v.len()
        invariant
            start <= i <= v@.len(),
            start < v@.len(),
            d == v@.skip(start as int),
            d == unsigned_digits(v@),
            n == digits_value(d.take(i - start)),
            n <= max,
            forall|k: int| 0 <= k < i - start ==> is_digit(#[trigger] d[k]),
        decreases v@.len() - i,
    {
        let c = v[i];
        proof {
            assert(d[i - start] == c);
            assert(d.take(i - start + 1).drop_last() == d.take(i - start));
            assert(d.take(i - start + 1).last() == c);
        }
        if c < '0' || c > '9' {
            return None;
        }
        let x = digit_of(c);
        if n > max / 10 || x > max - n * 10 {
            proof {
                if all_digits(d) {
                    lemma_digits_value_grows(d, i - start + 1);
                    assert(n > max / 10 ==> n * 10 > max) by (nonlinear_arith);
                }
            }
            return None;
        }
        n = n * 10 + x;
        i += 1;
    }
    proof {
        assert(d.take(i - start) == d);
    }
    Some(n)
}

/// The digit that writes `d`.
pub open spec fn digit_char(d: int) -> char {
    ('0' as int + d) as char
}

/// The decimal digits of `n`, without leading zeros.
pub open spec fn decimal(n: int) -> Seq<char>
    decreases n,
{
    if n < 10 {
        seq![digit_char(n)]
    } else {
        decimal(n / 10).push(digit_char(n % 10))
    }
}

/// The digit that writes `d`.
fn digit_text(d: u64) -> (c: char)
    requires
        d < 10,
    ensures
        c == digit_char(d as int),
{
    if d == 0 {
        '0'
    } else if d == 1 {
        '1'
    } else if d == 2 {
        '2'
    } else if d == 3 {
        '3'
    } else if d == 4 {
        '4'
    } else if d == 5 {
        '5'
    } else if d == 6 {
        '6'
    } else if d == 7 {
        '7'
    } else if d == 8 {
        '8'
    } else {
        '9'
    }
}

/// `n` in decimal.
pub fn decimal_text(n: u64) -> (s: String)
    ensures
        s@ == decimal(n as int),
    decreases n,
{
    if n < 10 {
        let mut s: String = String::new();
        s.push(digit_text(n));
        proof {
            assert(Seq::<char>::empty().push(digit_char(n as int)) == seq![digit_char(n as int)]);
        }
        s
    } else {
        let mut s = decimal_text(n / 10);
        s.push(digit_text(n % 10));
        s
    }
}

/// `n` in decimal, with a minus sign if it is negative.
pub open spec fn signed_decimal(n: int) -> Seq<char> {
    if n < 0 {
        seq!['-'] + decimal(-n)
    } else {
        decimal(n)
    }
}

/// `n` in decimal, with a minus sign if it is negative.
pub fn signed_decimal_text(n: i64) -> (s: String)
    ensures
        s@ == signed_decimal(n as int),
{
    if n < 0 {
        let mut s: String = String::new();
        s.push('-');
        let magnitude: u64 = if n == i64::MIN {
            0x8000_0000_0000_0000u64
        } else {
            (-n) as u64
        };
        let digits = decimal_text(magnitude);
        s.append(digits.as_str());
        proof {
            assert(Seq::<char>::empty().push('-') == seq!['-']);
        }
        s
    } else {
        decimal_text(n as u64)
    }
}

/// Reading a number back gives the number that was written.
pub proof fn law_parse_of_decimal(n: int, max: int)
    requires
        0 <= n <= max,
    ensures
        parse_unsigned(decimal(n), max) == Some(n),
{
    lemma_decimal(n);
    assert(decimal(n)[0] != '+') by {
        assert(is_digit(decimal(n)[0]));
    }
}

proof fn lemma_decimal(n: int)
    requires
        0 <= n,
    ensures
        all_digits(decimal(n)),
        digits_value(decimal(n)) == n,
    decreases n,
{
    if n < 10 {
        let s = seq![digit_char(n)];
        assert(s.drop_last() == Seq::<char>::empty());
        assert(digits_value(s.drop_last()) == 0);
        assert(is_digit(s[0]));
    } else {
        lemma_decimal(n / 10);
        let s = decimal(n);
        assert(s.drop_last() == decimal(n / 10));
        assert(s.last() == digit_char(n % 10));
        assert forall|i: int| 0 <= i < s.len() implies is_digit(#[trigger] s[i]) by {
            if i < s.len() - 1 {
                assert(s[i] == decimal(n / 10)[i]);
            }
        }
    }
}

// ---------------------------------------------------------------------------
// Order
// ---------------------------------------------------------------------------

/// Whether `a` comes before `b` in the dictionary order of code points, which
/// is also the order of their UTF-8 bytes.
pub open spec fn lex_less(a: Seq<char>, b: Seq<char>) -> bool
    decreases a.len(),
{
    if b.len() == 0 {
        false
    } else if a.len() == 0 {
        true
    } else if a[0] != b[0] {
        a[0] < b[0]
    } else {
        lex_less(a.skip(1), b.skip(1))
    }
}

/// Whether `a` comes before `b` in the dictionary order of code points.
pub fn text_less(a: &str, b: &str) -> (r: bool)
    ensures
        r == lex_less(a@, b@),
{
    let x = chars_of(a);
    let y = chars_of(b);
    let mut i: usize = 0;
    proof {
        assert(x@.skip(0) == x@);
        assert(y@.skip(0) == y@);
    }
    while i < x.len() && i < y.len() && x[i] == y[i]
        invariant
            i <= x@.len(),
            i <= y@.len(),
            lex_less(x@.skip(i as int), y@.skip(i as int)) == lex_less(x@, y@),
        decreases x@.len() - i,
    {
        proof {
            assert(x@.skip(i as int).skip(1) == x@.skip(i as int + 1));
            assert(y@.skip(i as int).skip(1) == y@.skip(i as int + 1));
        }
        i += 1;
    }
    if i >= y.len() {
        false
    } else if i >= x.len() {
        true
    } else {
        x[i] < y[i]
    }
}

/// The order is total: of two different texts one comes first.
pub proof fn lemma_lex_total(a: Seq<char>, b: Seq<char>)
    ensures
        lex_less(a, b) || lex_less(b, a) || a == b,
    decreases a.len(),
{
    if a.len() > 0 && b.len() > 0 && a[0] == b[0] {
        lemma_lex_total(a.skip(1), b.skip(1));
        if a.skip(1) == b.skip(1) {
            assert(a == seq![a[0]] + a.skip(1));
            assert(b == seq![b[0]] + b.skip(1));
        }
    } else if a.len() == 0 && b.len() == 0 {
        assert(a == b);
    }
}

/// No text comes before itself.
pub proof fn lemma_lex_irreflexive(a: Seq<char>)
    ensures
        !lex_less(a, a),
    decreases a.len(),
{
    if a.len() > 0 {
        lemma_lex_irreflexive(a.skip(1));
    }
}

/// The order carries over.
pub proof fn lemma_lex_transitive(a: Seq<char>, b: Seq<char>, c: Seq<char>)
    requires
        lex_less(a, b),
        lex_less(b, c),
    ensures
        lex_less(a, c),
    decreases a.len(),
{
    if a.len() > 0 && b.len() > 0 && c.len() > 0 && a[0] == b[0] && b[0] == c[0] {
        lemma_lex_transitive(a.skip(1), b.skip(1), c.skip(1));
    }
}

// ---------------------------------------------------------------------------
// Laws
// ---------------------------------------------------------------------------

/// A text is taken apart at its separators: what comes before the first one is the
/// first piece, and the others are those of what comes after it. Without a separator
/// the text is the one piece.
pub proof fn law_split_at_the_first_separator(a: Seq<char>, c: char, b: Seq<char>)
    requires
        forall|i: int| 0 <= i < a.len() ==> a[i] != c,
    ensures
        split(a, c) == seq![a],
        split(a + seq![c] + b, c) == seq![a] + split(b, c),
{
    lemma_find_is(a, c, a.len() as int);
    let s = a + seq![c] + b;
    lemma_find_is(s, c, a.len() as int);
    assert(s.take(a.len() as int) =~= a);
    assert(s.skip(a.len() as int + 1) =~= b);
}

/// No piece holds a separator.
pub proof fn law_pieces_hold_no_separator(s: Seq<char>, c: char, k: int, i: int)
    requires
        0 <= k < split(s, c).len(),
        0 <= i < split(s, c)[k].len(),
    ensures
        split(s, c)[k][i] != c,
    decreases s.len(),
{
    let f = find(s, c);
    lemma_find(s, c);
    if f < s.len() {
        if k > 0 {
            assert(split(s, c)[k] == split(s.skip(f + 1), c)[k - 1]);
            law_pieces_hold_no_separator(s.skip(f + 1), c, k - 1, i);
        }
    }
}

/// A text is read line by line: a line ends at a line feed, which is not part of it,
/// and neither is one carriage return before it. What comes after the last line feed
/// is a line as it is, unless there is nothing.
pub proof fn law_lines_end_at_line_feeds(a: Seq<char>, b: Seq<char>)
    requires
        forall|i: int| 0 <= i < a.len() ==> a[i] != '\n',
    ensures
        lines(Seq::empty()).len() == 0,
        a.len() > 0 ==> lines(a) == seq![a],
        a.len() == 0 || a.last() != '\r' ==> lines(a + seq!['\n'] + b) == seq![a] + lines(b),
        lines(a + seq!['\r', '\n'] + b) == seq![a] + lines(b),
{
    lemma_find_is(a, '\n', a.len() as int);
    let s = a + seq!['\n'] + b;
    lemma_find_is(s, '\n', a.len() as int);
    assert(s.take(a.len() as int) =~= a);
    assert(s.skip(a.len() as int + 1) =~= b);
    let t = a + seq!['\r', '\n'] + b;
    let n = a.len() as int + 1;
    assert forall|j: int| 0 <= j < n implies t[j] != '\n' by {
        if j < a.len() {
            assert(t[j] == a[j]);
        }
    }
    assert(t[n] == '\n');
    lemma_find_is(t, '\n', n);
    assert(t.take(n) =~= a.push('\r'));
    assert(a.push('\r').drop_last() =~= a);
    assert(t.skip(n + 1) =~= b);
}

/// The first line is what comes before the first line feed, without a carriage return
/// before that; without a line feed it is the whole text.
pub proof fn law_the_first_line_ends_at_a_line_feed(a: Seq<char>, b: Seq<char>)
    requires
        forall|i: int| 0 <= i < a.len() ==> a[i] != '\n',
    ensures
        first_line(a) == a,
        a.len() == 0 || a.last() != '\r' ==> first_line(a + seq!['\n'] + b) == a,
        first_line(a + seq!['\r', '\n'] + b) == a,
{
    law_lines_end_at_line_feeds(a, b);
    if a.len() == 0 {
        assert(a =~= Seq::<char>::empty());
    }
}

/// Which characters are whitespace, by their code points.
pub proof fn law_whitespace_by_code_point(c: char)
    ensures
        is_space(c) <==> {
            let n = c as int;
            ||| 0x9 <= n <= 0xd
            ||| n == 0x20
            ||| n == 0x85
            ||| n == 0xa0
            ||| n == 0x1680
            ||| 0x2000 <= n <= 0x200a
            ||| n == 0x2028
            ||| n == 0x2029
            ||| n == 0x202f
            ||| n == 0x205f
            ||| n == 0x3000
        },
{
}

proof fn lemma_trim_start(a: Seq<char>, b: Seq<char>)
    requires
        forall|i: int| 0 <= i < a.len() ==> is_space(#[trigger] a[i]),
        b.len() > 0 ==> !is_space(b[0]),
    ensures
        trim_start(a + b) == b,
    decreases a.len(),
{
    let s = a + b;
    if a.len() > 0 {
        assert(s[0] == a[0]);
        assert(is_space(a[0]));
        let rest = a.skip(1);
        assert forall|i: int| 0 <= i < rest.len() implies is_space(#[trigger] rest[i]) by {
            assert(rest[i] == a[i + 1]);
        }
        lemma_trim_start(rest, b);
        assert(s.skip(1) =~= rest + b);
    } else {
        assert(s =~= b);
    }
}

proof fn lemma_trim_end(b: Seq<char>, z: Seq<char>)
    requires
        forall|i: int| 0 <= i < z.len() ==> is_space(#[trigger] z[i]),
        b.len() > 0 ==> !is_space(b.last()),
    ensures
        trim_end(b + z) == b,
    decreases z.len(),
{
    let s = b + z;
    if z.len() > 0 {
        assert(s.last() == z.last());
        assert(is_space(z[z.len() - 1]));
        let rest = z.drop_last();
        assert forall|i: int| 0 <= i < rest.len() implies is_space(#[trigger] rest[i]) by {
            assert(rest[i] == z[i]);
        }
        lemma_trim_end(b, rest);
        assert(s.drop_last() =~= b + rest);
    } else {
        assert(s =~= b);
    }
}

/// Trimming takes the whitespace away from both ends and nothing else.
pub proof fn law_trimming_takes_whitespace_from_the_ends(
    a: Seq<char>,
    b: Seq<char>,
    z: Seq<char>,
)
    requires
        forall|i: int| 0 <= i < a.len() ==> is_space(#[trigger] a[i]),
        forall|i: int| 0 <= i < z.len() ==> is_space(#[trigger] z[i]),
        b.len() > 0,
        !is_space(b[0]),
        !is_space(b[b.len() - 1]),
    ensures
        trim_end(trim_start(a + b + z)) == b,
        trim_end(trim_start(a)) == Seq::<char>::empty(),
{
    assert(a + b + z =~= a + (b + z));
    assert((b + z)[0] == b[0]);
    lemma_trim_start(a, b + z);
    lemma_trim_end(b, z);
    lemma_trim_start(a, Seq::empty());
    assert(a + Seq::<char>::empty() =~= a);
}

proof fn lemma_word_prefix(b: Seq<char>, z: Seq<char>)
    requires
        forall|i: int| 0 <= i < b.len() ==> !is_space(#[trigger] b[i]),
        z.len() > 0 ==> is_space(z[0]),
    ensures
        word_prefix(b + z) == b,
    decreases b.len(),
{
    let s = b + z;
    if b.len() > 0 {
        assert(s[0] == b[0]);
        assert(!is_space(b[0]));
        let rest = b.skip(1);
        assert forall|i: int| 0 <= i < rest.len() implies !is_space(#[trigger] rest[i]) by {
            assert(rest[i] == b[i + 1]);
        }
        lemma_word_prefix(rest, z);
        assert(s.skip(1) =~= rest + z);
        assert(seq![b[0]] + rest =~= b);
    } else {
        assert(s =~= z);
        assert(b =~= Seq::<char>::empty());
    }
}

/// The first word stands between the whitespace before it and that after it.
pub proof fn law_the_first_word_ends_at_whitespace(a: Seq<char>, b: Seq<char>, z: Seq<char>)
    requires
        forall|i: int| 0 <= i < a.len() ==> is_space(#[trigger] a[i]),
        b.len() > 0,
        forall|i: int| 0 <= i < b.len() ==> !is_space(#[trigger] b[i]),
        z.len() > 0 ==> is_space(z[0]),
    ensures
        first_word(a + b + z) == b,
        first_word(a) == Seq::<char>::empty(),
{
    assert(a + b + z =~= a + (b + z));
    assert((b + z)[0] == b[0]);
    assert(!is_space(b[0]));
    lemma_trim_start(a, b + z);
    lemma_word_prefix(b, z);
    lemma_trim_start(a, Seq::empty());
    assert(a + Seq::<char>::empty() =~= a);
}

/// Only the run of a character at the start is taken away.
pub proof fn law_leading_characters_go(n: nat, c: char, b: Seq<char>)
    requires
        b.len() > 0 ==> b[0] != c,
    ensures
        trim_leading(Seq::new(n, |i: int| c) + b, c) == b,
    decreases n,
{
    let run = Seq::new(n, |i: int| c);
    let s = run + b;
    if n > 0 {
        let less = (n - 1) as nat;
        law_leading_characters_go(less, c, b);
        assert(s[0] == c);
        assert(s.skip(1) =~= Seq::new(less, |i: int| c) + b);
    } else {
        assert(s =~= b);
    }
}

/// A text stands in another at an index where each of its characters does.
pub proof fn law_occurrences_match_character_by_character(
    s: Seq<char>,
    needle: Seq<char>,
    i: int,
)
    ensures
        occurs_at(s, needle, i) <==> 0 <= i && i + needle.len() <= s.len() && forall|k: int|
            0 <= k < needle.len() ==> s[i + k] == #[trigger] needle[k],
        occurs_at(s, needle, i) ==> contains(s, needle),
        starts_with(s, needle) <==> needle.len() <= s.len() && forall|k: int|
            0 <= k < needle.len() ==> s[k] == #[trigger] needle[k],
{
    if 0 <= i && i + needle.len() <= s.len() {
        let sub = s.subrange(i, i + needle.len());
        if forall|k: int| 0 <= k < needle.len() ==> s[i + k] == #[trigger] needle[k] {
            assert(sub =~= needle);
        }
        if sub == needle {
            assert forall|k: int| 0 <= k < needle.len() implies s[i + k] == #[trigger] needle[k] by {
                assert(sub[k] == needle[k]);
            }
        }
    }
    if needle.len() <= s.len() {
        let sub = s.subrange(0, needle.len() as int);
        if forall|k: int| 0 <= k < needle.len() ==> s[k] == #[trigger] needle[k] {
            assert(sub =~= needle);
        }
        if sub == needle {
            assert forall|k: int| 0 <= k < needle.len() implies s[k] == #[trigger] needle[k] by {
                assert(sub[k] == needle[k]);
            }
        }
    }
}

/// A text that another one contains stands in it between what is before and what is
/// after it, and what is put together so contains it.
pub proof fn law_a_contained_text_stands_somewhere(a: Seq<char>, needle: Seq<char>, b: Seq<char>)
    ensures
        contains(a + needle + b, needle),
        contains(a, needle) ==> exists|x: Seq<char>, y: Seq<char>| a == #[trigger] (x + needle + y),
{
    let s = a + needle + b;
    assert(s.subrange(a.len() as int, a.len() as int + needle.len()) =~= needle);
    assert(occurs_at(s, needle, a.len() as int));
    if contains(a, needle) {
        let i = choose|i: int| occurs_at(a, needle, i);
        let x = a.take(i);
        let y = a.skip(i + needle.len());
        assert(a =~= x + needle + y);
    }
}

/// A number is read digit by digit: one more digit makes ten times as much and the
/// digit, as long as that is no more than what is allowed.
pub proof fn law_numbers_are_read_digit_by_digit(s: Seq<char>, d: char, max: int)
    requires
        s.len() > 0,
        forall|i: int| 0 <= i < s.len() ==> '0' <= #[trigger] s[i] <= '9',
        '0' <= d <= '9',
    ensures
        parse_unsigned(s, max) matches Some(n) && n * 10 + (d as int - '0' as int) <= max
            ==> parse_unsigned(s.push(d), max) == Some(
            parse_unsigned(s, max)->Some_0 * 10 + (d as int - '0' as int),
        ),
        parse_unsigned(s, max) is None ==> parse_unsigned(s.push(d), max) is None,
        parse_unsigned(s, max) matches Some(n) && n * 10 + (d as int - '0' as int) > max
            ==> parse_unsigned(s.push(d), max) is None,
{
    let t = s.push(d);
    assert(s[0] != '+') by {
        assert('0' <= s[0]);
    }
    assert(t[0] == s[0]);
    assert(t.drop_last() =~= s);
    assert(all_digits(s));
    assert forall|i: int| 0 <= i < t.len() implies is_digit(#[trigger] t[i]) by {
        if i < s.len() {
            assert(t[i] == s[i]);
        }
    }
    assert(all_digits(t));
    lemma_digits_value_bounds(s);
}

/// One digit is worth what it says, a plus sign before digits changes nothing, and
/// whatever else there is makes it no number.
pub proof fn law_only_digits_make_a_number(s: Seq<char>, d: char, max: int)
    ensures
        '0' <= d <= '9' && (d as int - '0' as int) <= max ==> parse_unsigned(seq![d], max) == Some(
            d as int - '0' as int,
        ),
        s.len() > 0 && '0' <= s[0] <= '9' ==> parse_unsigned(seq!['+'] + s, max)
            == parse_unsigned(s, max),
        (exists|i: int|
            0 <= i < s.len() && (i > 0 || s[i] != '+') && !('0' <= #[trigger] s[i] <= '9'))
            ==> parse_unsigned(s, max) is None,
        parse_unsigned(Seq::empty(), max) is None,
        parse_unsigned(seq!['+'], max) is None,
        parse_unsigned(s, max) matches Some(n) ==> 0 <= n <= max,
{
    if '0' <= d <= '9' {
        let one = seq![d];
        assert(one[0] != '+');
        assert(one.drop_last() =~= Seq::<char>::empty());
        assert(digits_value(one.drop_last()) == 0);
        assert(is_digit(one[0]));
    }
    if s.len() > 0 && '0' <= s[0] <= '9' {
        let plus = seq!['+'] + s;
        assert(plus[0] == '+');
        assert(plus.skip(1) =~= s);
    }
    if exists|i: int|
        0 <= i < s.len() && (i > 0 || s[i] != '+') && !('0' <= #[trigger] s[i] <= '9') {
        let i = choose|i: int|
            0 <= i < s.len() && (i > 0 || s[i] != '+') && !('0' <= #[trigger] s[i] <= '9');
        let u = unsigned_digits(s);
        if s[0] == '+' {
            assert(u[i - 1] == s[i]);
            assert(!is_digit(u[i - 1]));
        } else {
            assert(!is_digit(u[i]));
        }
    }
    assert(seq!['+'].skip(1) =~= Seq::<char>::empty());
    if all_digits(unsigned_digits(s)) {
        lemma_digits_value_bounds(unsigned_digits(s));
    }
}

/// A number is written with its decimal digits, the last one being its remainder by
/// ten, without a zero in front, and with a minus sign where it is negative.
pub proof fn law_numbers_are_written_in_decimal(n: int)
    requires
        n >= 0,
    ensures
        forall|i: int| 0 <= i < decimal(n).len() ==> '0' <= #[trigger] decimal(n)[i] <= '9',
        decimal(n).len() > 0,
        decimal(n)[decimal(n).len() - 1] as int == '0' as int + n % 10,
        n >= 10 ==> decimal(n).drop_last() == decimal(n / 10),
        n < 10 ==> decimal(n).len() == 1,
        n > 0 ==> decimal(n)[0] != '0',
        signed_decimal(n) == decimal(n),
        n > 0 ==> signed_decimal(-n) == seq!['-'] + decimal(n),
    decreases n,
{
    lemma_decimal(n);
    assert forall|i: int| 0 <= i < decimal(n).len() implies '0' <= #[trigger] decimal(n)[i]
        <= '9' by {
        assert(is_digit(decimal(n)[i]));
    }
    if n >= 10 {
        law_numbers_are_written_in_decimal(n / 10);
        assert(decimal(n).drop_last() =~= decimal(n / 10));
        assert(decimal(n)[0] == decimal(n / 10)[0]);
    }
}

/// Two different numbers are written differently.
pub proof fn law_different_numbers_are_written_differently(a: int, b: int)
    ensures
        signed_decimal(a) == signed_decimal(b) ==> a == b,
{
    if signed_decimal(a) == signed_decimal(b) {
        let x = if a < 0 {
            -a
        } else {
            a
        };
        let y = if b < 0 {
            -b
        } else {
            b
        };
        lemma_decimal(x);
        lemma_decimal(y);
        assert(is_digit(decimal(x)[0]) && is_digit(decimal(y)[0]));
        if a < 0 {
            assert(signed_decimal(a)[0] == '-');
            assert(b < 0);
            assert(signed_decimal(a).skip(1) =~= decimal(x));
            assert(signed_decimal(b).skip(1) =~= decimal(y));
        } else if b < 0 {
            assert(signed_decimal(b)[0] == '-');
        }
    }
}

/// The order of two texts is decided at the first place where they differ, and a text
/// comes before every longer one that begins with it.
pub proof fn law_the_first_difference_decides_the_order(a: Seq<char>, b: Seq<char>, i: int)
    requires
        0 <= i <= a.len(),
        i <= b.len(),
        forall|j: int| 0 <= j < i ==> a[j] == b[j],
    ensures
        i < a.len() && i < b.len() && a[i] != b[i] ==> (lex_less(a, b) <==> (a[i] as int) < (
        b[i] as int)),
        i == a.len() && i < b.len() ==> lex_less(a, b) && !lex_less(b, a),
        i == a.len() && i == b.len() ==> !lex_less(a, b),
    decreases i,
{
    if i > 0 {
        let x = a.skip(1);
        let y = b.skip(1);
        assert forall|j: int| 0 <= j < i - 1 implies x[j] == y[j] by {
            assert(x[j] == a[j + 1] && y[j] == b[j + 1]);
        }
        law_the_first_difference_decides_the_order(x, y, i - 1);
        assert(a[0] == b[0]);
        if i < a.len() {
            assert(x[i - 1] == a[i]);
        }
        if i < b.len() {
            assert(y[i - 1] == b[i]);
        }
    }
}

// ---------------------------------------------------------------------------
// Laws of the operations
// ---------------------------------------------------------------------------

/// The characters of a text are the text, and a part of them is a part of the text.
pub proof fn law_a_part_is_cut_out(
    v: Vec<char>,
    from: usize,
    to: usize,
    s: String,
    r: Vec<char>,
    i: int,
)
    requires
        from <= to <= v@.len(),
        call_ensures(text_between, (&v, from, to), s),
        call_ensures(chars_between, (&v, from, to), r),
        0 <= i < to - from,
    ensures
        s@.len() == to - from,
        s@[i] == v@[from + i],
        r@ == s@,
{
}

/// Two texts are the same where they have the same characters.
pub proof fn law_a_text_is_its_characters(a: &str, b: &str, v: Vec<char>, r: bool)
    requires
        call_ensures(same, (a, b), r),
        call_ensures(chars_of, (a,), v),
    ensures
        v@ == a@,
        r <==> v@ == b@,
{
}

/// A character is found at its first place from where the search begins, or not at all.
pub proof fn law_the_first_place_is_found(v: Vec<char>, c: char, from: usize, i: usize, j: int)
    requires
        from <= v@.len(),
        call_ensures(find_from, (&v, c, from), i),
    ensures
        from <= i <= v@.len(),
        i < v@.len() ==> v@[i as int] == c,
        from <= j < i ==> v@[j] != c,
{
    let rest = v@.skip(from as int);
    lemma_find(rest, c);
    if i < v@.len() {
        assert(rest[i - from] == v@[i as int]);
    }
    if from <= j < i {
        assert(rest[j - from] == v@[j]);
    }
}

/// A text is split at its separators, piece by piece.
pub proof fn law_a_text_is_split(v: Vec<char>, c: char, pieces: Vec<Vec<char>>, k: int)
    requires
        call_ensures(split_on, (&v, c), pieces),
        0 <= k < pieces@.len(),
    ensures
        pieces@.len() == split(v@, c).len(),
        pieces@[k]@ == split(v@, c)[k],
{
    assert(texts(pieces@)[k] == pieces@[k]@);
}

/// A text is read line by line.
pub proof fn law_a_text_is_read_by_lines(v: Vec<char>, r: Vec<Vec<char>>, k: int)
    requires
        call_ensures(lines_of, (&v,), r),
        0 <= k < r@.len(),
    ensures
        r@.len() == lines(v@).len(),
        r@[k]@ == lines(v@)[k],
{
    assert(texts(r@)[k] == r@[k]@);
}

/// The first line ends at the first line feed, without a carriage return before it.
pub proof fn law_the_first_line_is_read(v: Vec<char>, line: Vec<char>, a: Seq<char>, b: Seq<char>)
    requires
        call_ensures(first_line_of, (&v,), line),
        forall|i: int| 0 <= i < a.len() ==> a[i] != '\n',
        v@ == a || v@ == a + seq!['\r', '\n'] + b || (v@ == a + seq!['\n'] + b && (a.len() == 0
            || a.last() != '\r')),
    ensures
        line@ == a,
{
    law_the_first_line_ends_at_a_line_feed(a, b);
}

/// Whitespace goes from both ends, and from nowhere else.
pub proof fn law_a_text_is_trimmed(
    v: Vec<char>,
    r: Vec<char>,
    a: Seq<char>,
    b: Seq<char>,
    z: Seq<char>,
)
    requires
        call_ensures(trimmed, (&v,), r),
        forall|i: int| 0 <= i < a.len() ==> is_space(#[trigger] a[i]),
        forall|i: int| 0 <= i < z.len() ==> is_space(#[trigger] z[i]),
        b.len() > 0 ==> !is_space(b[0]) && !is_space(b[b.len() - 1]),
        v@ == (if b.len() > 0 {
            a + b + z
        } else {
            a
        }),
    ensures
        r@ == b,
{
    if b.len() > 0 {
        law_trimming_takes_whitespace_from_the_ends(a, b, z);
    } else {
        let word = seq!['x'];
        law_trimming_takes_whitespace_from_the_ends(a, word, z);
        assert(b =~= Seq::<char>::empty());
    }
}

/// The first word is what stands before the first whitespace after it.
pub proof fn law_the_first_word_is_read(
    v: Vec<char>,
    word: String,
    a: Seq<char>,
    b: Seq<char>,
    z: Seq<char>,
)
    requires
        call_ensures(first_word_of, (&v,), word),
        forall|i: int| 0 <= i < a.len() ==> is_space(#[trigger] a[i]),
        b.len() > 0,
        forall|i: int| 0 <= i < b.len() ==> !is_space(#[trigger] b[i]),
        z.len() > 0 ==> is_space(z[0]),
        v@ == a + b + z,
    ensures
        word@ == b,
{
    law_the_first_word_ends_at_whitespace(a, b, z);
}

/// Leading characters go, however many there are.
pub proof fn law_leading_characters_are_taken_away(
    s: &str,
    c: char,
    r: String,
    n: nat,
    b: Seq<char>,
)
    requires
        call_ensures(without_leading, (s, c), r),
        b.len() > 0 ==> b[0] != c,
        s@ == Seq::new(n, |i: int| c) + b,
    ensures
        r@ == b,
{
    law_leading_characters_go(n, c, b);
}

/// A text contains another where that stands somewhere in it, begins with it where it
/// stands at the front, and what is left of it then is the rest.
pub proof fn law_a_text_is_searched(
    s: &str,
    needle: &str,
    contained: bool,
    first: bool,
    rest: Option<String>,
)
    requires
        call_ensures(text_contains, (s, needle), contained),
        call_ensures(text_starts_with, (s, needle), first),
        call_ensures(text_after, (s, needle), rest),
    ensures
        contained <==> exists|x: Seq<char>, y: Seq<char>| s@ == #[trigger] (x + needle@ + y),
        first <==> rest is Some,
        rest is Some ==> s@ == needle@ + rest->Some_0@,
        first ==> contained,
        !first ==> forall|y: Seq<char>| s@ != #[trigger] (needle@ + y),
{
    law_a_contained_text_stands_somewhere(s@, needle@, Seq::empty());
    if exists|x: Seq<char>, y: Seq<char>| s@ == #[trigger] (x + needle@ + y) {
        let (x, y) = choose|x: Seq<char>, y: Seq<char>| s@ == #[trigger] (x + needle@ + y);
        law_a_contained_text_stands_somewhere(x, needle@, y);
    }
    law_occurrences_match_character_by_character(s@, needle@, 0);
    if first {
        let n = needle@.len() as int;
        assert(s@ =~= needle@ + s@.skip(n));
    } else {
        assert forall|y: Seq<char>| s@ != #[trigger] (needle@ + y) by {
            let t = needle@ + y;
            if s@ == t {
                assert forall|k: int| 0 <= k < needle@.len() implies s@[k] == #[trigger] needle@[k] by {
                    assert(t[k] == needle@[k]);
                }
            }
        }
    }
}

/// A number that was written in decimal is read back, unless it is above the limit.
pub proof fn law_a_number_is_read_back(n: u64, s: String, v: Vec<char>, max: u64, r: Option<u64>)
    requires
        call_ensures(decimal_text, (n,), s),
        v@ == s@,
        call_ensures(parse_number, (&v, max), r),
    ensures
        n <= max ==> r == Some(n),
{
    if n <= max {
        law_parse_of_decimal(n as int, max as int);
    }
}

/// A negative number is written with a minus before its digits.
pub proof fn law_a_signed_number_is_written(n: i64, s: String)
    requires
        call_ensures(signed_decimal_text, (n,), s),
    ensures
        n >= 0 ==> s@ == decimal(n as int),
        n < 0 ==> s@ == seq!['-'] + decimal(-n),
{
    if n >= 0 {
        law_numbers_are_written_in_decimal(n as int);
    } else {
        law_numbers_are_written_in_decimal(-n);
    }
}

/// Of two texts the one with the smaller character at the first difference comes first,
/// and a text comes before what it is a beginning of.
pub proof fn law_texts_are_ordered(a: &str, b: &str, r: bool, i: int)
    requires
        call_ensures(text_less, (a, b), r),
        0 <= i <= a@.len(),
        i <= b@.len(),
        forall|j: int| 0 <= j < i ==> a@[j] == b@[j],
        i < a@.len() && i < b@.len() ==> a@[i] != b@[i],
    ensures
        i < a@.len() && i < b@.len() ==> (r <==> (a@[i] as int) < (b@[i] as int)),
        i == a@.len() ==> (r <==> i < b@.len()),
        i == b@.len() ==> !r,
{
    law_the_first_difference_decides_the_order(a@, b@, i);
    if i == b@.len() {
        assert forall|j: int| 0 <= j < i implies b@[j] == a@[j] by {}
        law_the_first_difference_decides_the_order(b@, a@, i);
    }
}

/// Whitespace is told by the code point.
pub proof fn law_whitespace_is_recognised(c: char, r: bool)
    requires
        call_ensures(is_space_char, (c,), r),
    ensures
        r <==> {
            let n = c as int;
            ||| 0x9 <= n <= 0xd
            ||| n == 0x20
            ||| n == 0x85
            ||| n == 0xa0
            ||| n == 0x1680
            ||| 0x2000 <= n <= 0x200a
            ||| n == 0x2028
            ||| n == 0x2029
            ||| n == 0x202f
            ||| n == 0x205f
            ||| n == 0x3000
        },
{
    law_whitespace_by_code_point(c);
}

} // verus!
