//! Text primitives over strings and character sequences.

use vstd::prelude::*;
use vstd::utf8::*;

verus! {

// ---------------------------------------------------------------------------
// Character classes
// ---------------------------------------------------------------------------

/// Whether a character has the Unicode `White_Space` property.
pub open spec fn whitespace(c: char) -> bool {
    let n = c as u32;
    ||| 0x09 <= n <= 0x0d
    ||| n == 0x20
    ||| n == 0x85
    ||| n == 0xa0
    ||| n == 0x1680
    ||| 0x2000 <= n <= 0x200a
    ||| 0x2028 <= n <= 0x2029
    ||| n == 0x202f
    ||| n == 0x205f
    ||| n == 0x3000
}

/// Whether a character is ASCII punctuation.
pub open spec fn ascii_punctuation(c: char) -> bool {
    let n = c as u32;
    ||| 0x21 <= n <= 0x2f
    ||| 0x3a <= n <= 0x40
    ||| 0x5b <= n <= 0x60
    ||| 0x7b <= n <= 0x7e
}

/// Whether a character is an ASCII digit.
pub open spec fn ascii_digit(c: char) -> bool {
    '0' <= c <= '9'
}

/// Whether a character has the Unicode `White_Space` property.
pub fn is_whitespace(c: char) -> (b: bool)
    ensures
        b == whitespace(c),
{
    let n: u32 = c as u32;
    (0x09 <= n && n <= 0x0d) || n == 0x20 || n == 0x85 || n == 0xa0 || n == 0x1680 || (0x2000 <= n
        && n <= 0x200a) || (0x2028 <= n && n <= 0x2029) || n == 0x202f || n == 0x205f || n
        == 0x3000
}

/// Whether a character is ASCII punctuation.
pub fn is_ascii_punctuation(c: char) -> (b: bool)
    ensures
        b == ascii_punctuation(c),
{
    let n: u32 = c as u32;
    (0x21 <= n && n <= 0x2f) || (0x3a <= n && n <= 0x40) || (0x5b <= n && n <= 0x60) || (0x7b <= n
        && n <= 0x7e)
}

// ---------------------------------------------------------------------------
// Parts of a text
// ---------------------------------------------------------------------------

/// How many characters at the front of `s` satisfy `p`.
pub open spec fn span(s: Seq<char>, p: spec_fn(char) -> bool) -> int
    decreases s.len(),
{
    if s.len() == 0 || !p(s[0]) {
        0
    } else {
        1 + span(s.drop_first(), p)
    }
}

/// How many characters of `s` are left once those at its end that satisfy `p`
/// are gone.
pub open spec fn kept(s: Seq<char>, p: spec_fn(char) -> bool) -> int
    decreases s.len(),
{
    if s.len() == 0 || !p(s.last()) {
        s.len() as int
    } else {
        kept(s.drop_last(), p)
    }
}

/// `s` without the whitespace at its front.
pub open spec fn trimmed_start(s: Seq<char>) -> Seq<char> {
    s.skip(span(s, |c: char| whitespace(c)))
}

/// `s` without the whitespace at either end.
pub open spec fn trimmed(s: Seq<char>) -> Seq<char> {
    let t = trimmed_start(s);
    t.take(kept(t, |c: char| whitespace(c)))
}

/// `s` without the ASCII punctuation at its end.
pub open spec fn unpunctuated(s: Seq<char>) -> Seq<char> {
    s.take(kept(s, |c: char| ascii_punctuation(c)))
}

/// The characters other than `c`.
pub open spec fn other_than(c: char) -> spec_fn(char) -> bool {
    |x: char| x != c
}

/// Where the first `c` stands in `s`; the length of `s` where there is none.
pub open spec fn char_pos(s: Seq<char>, c: char) -> int {
    span(s, other_than(c))
}

/// What stands before the first `c`; all of `s` where there is none.
pub open spec fn before_first(s: Seq<char>, c: char) -> Seq<char> {
    s.take(char_pos(s, c))
}

/// What stands behind the first `c`, if there is one.
pub open spec fn after_first(s: Seq<char>, c: char) -> Option<Seq<char>> {
    if char_pos(s, c) < s.len() {
        Some(s.skip(char_pos(s, c) + 1))
    } else {
        None
    }
}

/// Whether `pat` stands in `s` from position `i` on.
pub open spec fn occurs_at(s: Seq<char>, pat: Seq<char>, i: int) -> bool {
    0 <= i && i + pat.len() <= s.len() && s.subrange(i, i + pat.len()) == pat
}

/// Whether `pat` stands somewhere in `s`.
pub open spec fn has_text(s: Seq<char>, pat: Seq<char>) -> bool {
    exists|i: int| occurs_at(s, pat, i)
}

/// The first position from `i` on at which `pat` stands in `s`.
pub open spec fn text_pos(s: Seq<char>, pat: Seq<char>, i: int) -> Option<int>
    decreases s.len() - i + 1,
{
    if i < 0 || i + pat.len() > s.len() {
        None
    } else if occurs_at(s, pat, i) {
        Some(i)
    } else {
        text_pos(s, pat, i + 1)
    }
}

/// What stands between the first `pat` and the next one, or the end of `s`;
/// nothing where `pat` does not stand in `s`.
pub open spec fn piece_behind(s: Seq<char>, pat: Seq<char>) -> Option<Seq<char>> {
    match text_pos(s, pat, 0) {
        None => None,
        Some(i) => {
            let rest = s.skip(i + pat.len());
            match text_pos(rest, pat, 0) {
                None => Some(rest),
                Some(j) => Some(rest.take(j)),
            }
        },
    }
}

/// `s` behind the prefix `pat`, if it starts with it.
pub open spec fn without_prefix(s: Seq<char>, pat: Seq<char>) -> Option<Seq<char>> {
    if occurs_at(s, pat, 0) {
        Some(s.skip(pat.len() as int))
    } else {
        None
    }
}

/// The first line of `s`, without its line break.
pub open spec fn line_of(s: Seq<char>) -> Seq<char> {
    let line = before_first(s, '\n');
    if line.len() < s.len() && line.len() > 0 && line.last() == '\r' {
        line.drop_last()
    } else {
        line
    }
}

/// The lines of `s`, without their line breaks. A line break at the end of `s`
/// ends the last line and starts no other.
pub open spec fn lines_of(s: Seq<char>) -> Seq<Seq<char>>
    decreases s.len(),
    via lines_of_decreases
{
    if s.len() == 0 {
        Seq::empty()
    } else {
        match after_first(s, '\n') {
            Some(rest) => seq![line_of(s)] + lines_of(rest),
            None => seq![line_of(s)],
        }
    }
}

#[via_fn]
proof fn lines_of_decreases(s: Seq<char>) {
    lemma_span_bounds(s, other_than('\n'));
}

/// The pieces of `s` that whitespace separates.
pub open spec fn words_of(s: Seq<char>) -> Seq<Seq<char>>
    decreases s.len(),
    via words_of_decreases
{
    let t = trimmed_start(s);
    if t.len() == 0 {
        Seq::empty()
    } else {
        let n = span(t, |c: char| !whitespace(c));
        seq![t.take(n)] + words_of(t.skip(n))
    }
}

#[via_fn]
proof fn words_of_decreases(s: Seq<char>) {
    lemma_span_bounds(s, |c: char| whitespace(c));
    let t = trimmed_start(s);
    lemma_span_bounds(t, |c: char| !whitespace(c));
    if t.len() > 0 {
        let n = span(s, |c: char| whitespace(c));
        assert(t[0] == s[n]);
    }
}

/// The pieces put together with one space between each two.
pub open spec fn joined(pieces: Seq<Seq<char>>) -> Seq<char>
    decreases pieces.len(),
{
    if pieces.len() == 0 {
        Seq::empty()
    } else if pieces.len() == 1 {
        pieces[0]
    } else {
        joined(pieces.drop_last()) + seq![' '] + pieces.last()
    }
}

// ---------------------------------------------------------------------------
// Numbers
// ---------------------------------------------------------------------------

/// The value of a sequence of ASCII digits.
pub open spec fn decimal(digits: Seq<char>) -> nat
    decreases digits.len(),
{
    if digits.len() == 0 {
        0
    } else {
        decimal(digits.drop_last()) * 10 + (digits.last() as u32 - '0' as u32) as nat
    }
}

/// The digits of a number behind its plus sign, if it has one.
pub open spec fn unsigned_digits(s: Seq<char>) -> Seq<char> {
    if s.len() > 0 && s[0] == '+' {
        s.drop_first()
    } else {
        s
    }
}

/// The number that `s` writes: one or more ASCII digits, with or without a
/// plus sign before them, and at most `u32::MAX`.
pub open spec fn number_in(s: Seq<char>) -> Option<u32> {
    let digits = unsigned_digits(s);
    if digits.len() > 0 && (forall|i: int| 0 <= i < digits.len() ==> ascii_digit(#[trigger] digits[i]))
        && decimal(digits) <= u32::MAX {
        Some(decimal(digits) as u32)
    } else {
        None
    }
}

// ---------------------------------------------------------------------------
// Facts about parts
// ---------------------------------------------------------------------------

/// A span is a prefix whose characters all satisfy `p`, and the character
/// behind it, if there is one, does not.
pub proof fn lemma_span_bounds(s: Seq<char>, p: spec_fn(char) -> bool)
    ensures
        0 <= span(s, p) <= s.len(),
        forall|i: int| 0 <= i < span(s, p) ==> p(#[trigger] s[i]),
        span(s, p) < s.len() ==> !p(s[span(s, p)]),
    decreases s.len(),
{
    if s.len() > 0 && p(s[0]) {
        let t = s.drop_first();
        lemma_span_bounds(t, p);
        assert forall|i: int| 0 <= i < span(s, p) implies p(#[trigger] s[i]) by {
            if i > 0 {
                assert(s[i] == t[i - 1]);
            }
        }
        if span(s, p) < s.len() {
            assert(s[span(s, p)] == t[span(t, p)]);
        }
    }
}

/// Only one length is that of the span.
pub proof fn lemma_span_is(s: Seq<char>, p: spec_fn(char) -> bool, n: int)
    requires
        0 <= n <= s.len(),
        forall|i: int| 0 <= i < n ==> p(#[trigger] s[i]),
        n < s.len() ==> !p(s[n]),
    ensures
        span(s, p) == n,
{
    lemma_span_bounds(s, p);
    let m = span(s, p);
    if m < n {
        assert(p(s[m]));
    } else if n < m {
        assert(p(s[n]));
    }
}

/// What is kept is a prefix; everything behind it satisfies `p`, and its last
/// character does not.
pub proof fn lemma_kept_bounds(s: Seq<char>, p: spec_fn(char) -> bool)
    ensures
        0 <= kept(s, p) <= s.len(),
        forall|i: int| kept(s, p) <= i < s.len() ==> p(#[trigger] s[i]),
        kept(s, p) > 0 ==> !p(s[kept(s, p) - 1]),
    decreases s.len(),
{
    if s.len() > 0 && p(s.last()) {
        let t = s.drop_last();
        lemma_kept_bounds(t, p);
        assert forall|i: int| kept(s, p) <= i < s.len() implies p(#[trigger] s[i]) by {
            if i < s.len() - 1 {
                assert(s[i] == t[i]);
            }
        }
    }
}

/// Only one length is the kept one.
pub proof fn lemma_kept_is(s: Seq<char>, p: spec_fn(char) -> bool, n: int)
    requires
        0 <= n <= s.len(),
        forall|i: int| n <= i < s.len() ==> p(#[trigger] s[i]),
        n > 0 ==> !p(s[n - 1]),
    ensures
        kept(s, p) == n,
{
    lemma_kept_bounds(s, p);
    let m = kept(s, p);
    if m < n {
        assert(p(s[n - 1]));
    } else if n < m {
        assert(p(s[m - 1]));
    }
}

/// A search that finds nothing means that there is nothing, and what it finds
/// is the first.
pub proof fn lemma_text_pos(s: Seq<char>, pat: Seq<char>, i: int)
    requires
        0 <= i,
    ensures
        match text_pos(s, pat, i) {
            Some(k) => i <= k && occurs_at(s, pat, k) && forall|j: int|
                i <= j < k ==> !occurs_at(s, pat, j),
            None => forall|j: int| i <= j ==> !occurs_at(s, pat, j),
        },
    decreases s.len() - i + 1,
{
    if i + pat.len() <= s.len() && !occurs_at(s, pat, i) {
        lemma_text_pos(s, pat, i + 1);
    }
}

/// A text is found exactly where it stands somewhere.
pub proof fn law_found_iff_present(s: Seq<char>, pat: Seq<char>)
    ensures
        has_text(s, pat) <==> text_pos(s, pat, 0) is Some,
{
    lemma_text_pos(s, pat, 0);
}

/// A trimmed text neither starts nor ends with whitespace.
pub proof fn law_trimmed_is_bare(s: Seq<char>)
    ensures
        trimmed(s).len() > 0 ==> !whitespace(trimmed(s).first()) && !whitespace(trimmed(s).last()),
{
    let ws = |c: char| whitespace(c);
    lemma_span_bounds(s, ws);
    let t = trimmed_start(s);
    lemma_kept_bounds(t, ws);
    let n = kept(t, ws);
    if n > 0 {
        assert(t[0] == s[span(s, ws)]);
        assert(t.take(n).first() == t[0]);
        assert(t.take(n).last() == t[n - 1]);
    }
}

/// Trimming a trimmed text changes nothing.
pub proof fn law_trim_is_idempotent(s: Seq<char>)
    ensures
        trimmed(trimmed(s)) == trimmed(s),
{
    law_trimmed_is_bare(s);
    let t = trimmed(s);
    let ws = |c: char| whitespace(c);
    lemma_span_is(t, ws, 0);
    assert(t.skip(0) =~= t);
    lemma_kept_is(t, ws, t.len() as int);
    assert(t.take(t.len() as int) =~= t);
}

/// Whitespace at the end of a text does not change what it is trimmed to.
pub proof fn lemma_trimmed_push(s: Seq<char>, c: char)
    requires
        whitespace(c),
    ensures
        trimmed(s.push(c)) == trimmed(s),
{
    let ws = |x: char| whitespace(x);
    let long = s.push(c);
    lemma_span_bounds(s, ws);
    let n = span(s, ws);
    assert forall|i: int| 0 <= i < n implies ws(#[trigger] long[i]) by {
        assert(long[i] == s[i]);
    }
    if n < s.len() {
        assert(long[n] == s[n]);
        lemma_span_is(long, ws, n);
        let t = trimmed_start(s);
        let u = trimmed_start(long);
        assert(u =~= t.push(c));
        assert(u.drop_last() =~= t);
        lemma_kept_bounds(t, ws);
        assert(kept(u, ws) == kept(t, ws));
        assert(u.take(kept(u, ws)) =~= t.take(kept(t, ws)));
    } else {
        assert(long[n] == c);
        lemma_span_is(long, ws, n + 1);
        assert(trimmed_start(long) =~= Seq::<char>::empty());
        assert(trimmed_start(s) =~= Seq::<char>::empty());
        assert(trimmed(long) =~= trimmed(s));
    }
}

/// No line holds a line break.
pub proof fn law_lines_hold_no_break(s: Seq<char>, i: int)
    requires
        0 <= i < lines_of(s).len(),
    ensures
        !lines_of(s)[i].contains('\n'),
    decreases s.len(),
{
    lemma_span_bounds(s, other_than('\n'));
    let line = line_of(s);
    assert forall|j: int| 0 <= j < line.len() implies line[j] != '\n' by {
        assert(line[j] == s[j]);
    }
    if i > 0 {
        let rest = after_first(s, '\n').unwrap();
        assert(lines_of(s)[i] == lines_of(rest)[i - 1]);
        law_lines_hold_no_break(rest, i - 1);
    } else {
        assert(lines_of(s)[0] == line);
    }
}

/// The first line is the line that is read where only one is.
pub proof fn law_first_line_leads(s: Seq<char>)
    requires
        s.len() > 0,
    ensures
        lines_of(s).len() > 0,
        lines_of(s)[0] == line_of(s),
{
    match after_first(s, '\n') {
        Some(rest) => {
            assert((seq![line_of(s)] + lines_of(rest))[0] == line_of(s));
        },
        None => {},
    }
}

/// The first line of a text with a line break, up to a carriage return before
/// it.
pub proof fn lemma_line_of_first(line: Seq<char>, rest: Seq<char>)
    requires
        !line.contains('\n'),
    ensures
        line_of(line + seq!['\n'] + rest) == if line.len() > 0 && line.last() == '\r' {
            line.drop_last()
        } else {
            line
        },
{
    let s = line + seq!['\n'] + rest;
    assert forall|i: int| 0 <= i < line.len() implies (other_than('\n'))(#[trigger] s[i]) by {
        assert(s[i] == line[i]);
        assert(line.contains(line[i]));
    }
    assert(s[line.len() as int] == '\n');
    lemma_span_is(s, other_than('\n'), line.len() as int);
    assert(s.take(line.len() as int) =~= line);
}

/// A front without a line break belongs to the first line whole, where it does
/// not end in a carriage return.
pub proof fn lemma_line_of_front(front: Seq<char>, rest: Seq<char>)
    requires
        !front.contains('\n'),
        front.len() > 0,
        front.last() != '\r',
    ensures
        line_of(front + rest) == front + line_of(rest),
{
    let s = front + rest;
    let other = other_than('\n');
    lemma_span_bounds(rest, other);
    let n = span(rest, other);
    assert forall|i: int| 0 <= i < front.len() + n implies other(#[trigger] s[i]) by {
        if i < front.len() {
            assert(front.contains(front[i]));
        } else {
            assert(s[i] == rest[i - front.len()]);
        }
    }
    if n < rest.len() {
        assert(s[front.len() + n] == rest[n]);
    }
    lemma_span_is(s, other, front.len() + n);
    assert(s.take(front.len() + n) =~= front + rest.take(n));
    assert(line_of(s) =~= front + line_of(rest));
}

/// A text without a line break is its own first line.
pub proof fn lemma_line_of_only(line: Seq<char>)
    requires
        !line.contains('\n'),
    ensures
        line_of(line) == line,
{
    assert forall|i: int| 0 <= i < line.len() implies (other_than('\n'))(#[trigger] line[i]) by {
        assert(line.contains(line[i]));
    }
    lemma_span_is(line, other_than('\n'), line.len() as int);
    assert(line.take(line.len() as int) =~= line);
}

/// Every word has a character, and none that is whitespace.
pub proof fn law_words_are_solid(s: Seq<char>, i: int)
    requires
        0 <= i < words_of(s).len(),
    ensures
        words_of(s)[i].len() > 0,
        forall|j: int| 0 <= j < words_of(s)[i].len() ==> !whitespace(#[trigger] words_of(s)[i][j]),
    decreases s.len(),
{
    let ws = |c: char| whitespace(c);
    let solid = |c: char| !whitespace(c);
    lemma_span_bounds(s, ws);
    let t = trimmed_start(s);
    lemma_span_bounds(t, solid);
    let n = span(t, solid);
    assert(t[0] == s[span(s, ws)]);
    let rest = t.skip(n);
    assert(words_of(s) == seq![t.take(n)] + words_of(rest));
    if i == 0 {
        assert(words_of(s)[0] == t.take(n));
        assert(n > 0);
        assert forall|j: int| 0 <= j < n implies !whitespace(#[trigger] words_of(s)[0][j]) by {
            assert(solid(t[j]));
        }
    } else {
        assert(words_of(s)[i] == words_of(rest)[i - 1]);
        law_words_are_solid(rest, i - 1);
    }
}

proof fn lemma_decimal_grows(digits: Seq<char>, n: int)
    requires
        0 <= n <= digits.len(),
    ensures
        decimal(digits.take(n)) <= decimal(digits),
    decreases digits.len() - n,
{
    if n < digits.len() {
        lemma_decimal_grows(digits, n + 1);
        assert(digits.take(n + 1).drop_last() =~= digits.take(n));
    } else {
        assert(digits.take(n) =~= digits);
    }
}

// ---------------------------------------------------------------------------
// Laws of parts
// ---------------------------------------------------------------------------

/// Whether all characters of `s` are whitespace.
pub open spec fn blank(s: Seq<char>) -> bool {
    forall|i: int| 0 <= i < s.len() ==> whitespace(#[trigger] s[i])
}

/// Whether `s` neither starts nor ends with whitespace.
pub open spec fn bare(s: Seq<char>) -> bool {
    s.len() > 0 ==> !whitespace(s.first()) && !whitespace(s.last())
}

/// The whitespace characters, one by one.
pub proof fn law_whitespace_is_listed(c: char)
    ensures
        whitespace(c) <==> seq![
            '\t',
            '\n',
            '\u{b}',
            '\u{c}',
            '\r',
            ' ',
            '\u{85}',
            '\u{a0}',
            '\u{1680}',
            '\u{2000}',
            '\u{2001}',
            '\u{2002}',
            '\u{2003}',
            '\u{2004}',
            '\u{2005}',
            '\u{2006}',
            '\u{2007}',
            '\u{2008}',
            '\u{2009}',
            '\u{200a}',
            '\u{2028}',
            '\u{2029}',
            '\u{202f}',
            '\u{205f}',
            '\u{3000}',
        ].contains(c),
{
    let all = seq![
        '\t',
        '\n',
        '\u{b}',
        '\u{c}',
        '\r',
        ' ',
        '\u{85}',
        '\u{a0}',
        '\u{1680}',
        '\u{2000}',
        '\u{2001}',
        '\u{2002}',
        '\u{2003}',
        '\u{2004}',
        '\u{2005}',
        '\u{2006}',
        '\u{2007}',
        '\u{2008}',
        '\u{2009}',
        '\u{200a}',
        '\u{2028}',
        '\u{2029}',
        '\u{202f}',
        '\u{205f}',
        '\u{3000}',
    ];
    if whitespace(c) {
        let n = c as u32;
        let k: int = if 0x09 <= n <= 0x0d {
            n - 0x09
        } else if n == 0x20 {
            5
        } else if n == 0x85 {
            6
        } else if n == 0xa0 {
            7
        } else if n == 0x1680 {
            8
        } else if 0x2000 <= n <= 0x200a {
            9 + (n - 0x2000)
        } else if n == 0x2028 {
            20
        } else if n == 0x2029 {
            21
        } else if n == 0x202f {
            22
        } else if n == 0x205f {
            23
        } else {
            24
        };
        assert(all[k] == c);
    }
}

/// The ASCII punctuation characters, one by one.
pub proof fn law_punctuation_is_listed(c: char)
    ensures
        ascii_punctuation(c) <==> "!\"#$%&'()*+,-./:;<=>?@[\\]^_`{|}~"@.contains(c),
{
    reveal_strlit("!\"#$%&'()*+,-./:;<=>?@[\\]^_`{|}~");
    let all = "!\"#$%&'()*+,-./:;<=>?@[\\]^_`{|}~"@;
    if ascii_punctuation(c) {
        let n = c as u32;
        let k: int = if n <= 0x2f {
            n - 0x21
        } else if n <= 0x40 {
            15 + (n - 0x3a)
        } else if n <= 0x60 {
            22 + (n - 0x5b)
        } else {
            28 + (n - 0x7b)
        };
        assert(all[k] == c);
    }
}

/// A text stands in another exactly where that is made of something, the text, and
/// something.
pub proof fn law_text_stands_between(s: Seq<char>, pat: Seq<char>)
    ensures
        has_text(s, pat) <==> exists|a: Seq<char>, b: Seq<char>| s == #[trigger] (a + pat + b),
{
    if has_text(s, pat) {
        let i = choose|i: int| occurs_at(s, pat, i);
        let a = s.take(i);
        let b = s.skip(i + pat.len());
        assert forall|k: int| 0 <= k < s.len() implies s[k] == (a + pat + b)[k] by {
            if i <= k < i + pat.len() {
                assert(s.subrange(i, i + pat.len())[k - i] == pat[k - i]);
            }
        }
        assert(s =~= a + pat + b);
    }
    if exists|a: Seq<char>, b: Seq<char>| s == #[trigger] (a + pat + b) {
        let (a, b) = choose|a: Seq<char>, b: Seq<char>| s == #[trigger] (a + pat + b);
        let n = a.len() as int;
        assert(s.subrange(n, n + pat.len()) =~= pat);
        assert(occurs_at(s, pat, n));
    }
}

/// Trimming takes the whitespace at either end away and leaves what stands between.
pub proof fn law_trim_leaves_the_core(front: Seq<char>, core: Seq<char>, back: Seq<char>)
    requires
        blank(front),
        blank(back),
        bare(core),
    ensures
        trimmed(front + core + back) == core,
{
    let ws = |c: char| whitespace(c);
    let s = front + core + back;
    if core.len() == 0 {
        assert forall|i: int| 0 <= i < s.len() implies ws(#[trigger] s[i]) by {
            if i < front.len() {
                assert(s[i] == front[i]);
            } else {
                assert(s[i] == back[i - front.len()]);
            }
        }
        lemma_span_is(s, ws, s.len() as int);
        assert(trimmed_start(s).len() == 0);
        assert(trimmed(s) =~= core);
    } else {
        assert forall|i: int| 0 <= i < front.len() implies ws(#[trigger] s[i]) by {
            assert(s[i] == front[i]);
        }
        assert(s[front.len() as int] == core[0]);
        lemma_span_is(s, ws, front.len() as int);
        let t = trimmed_start(s);
        assert(t =~= core + back);
        let n = core.len() as int;
        assert forall|i: int| n <= i < t.len() implies ws(#[trigger] t[i]) by {
            assert(t[i] == back[i - n]);
        }
        assert(t[n - 1] == core.last());
        lemma_kept_is(t, ws, n);
        assert(t.take(n) =~= core);
    }
}

/// Trimming at the front takes the whitespace there away and leaves the rest.
pub proof fn law_trim_start_leaves_the_rest(front: Seq<char>, rest: Seq<char>)
    requires
        blank(front),
        rest.len() > 0 ==> !whitespace(rest.first()),
    ensures
        trimmed_start(front + rest) == rest,
{
    let ws = |c: char| whitespace(c);
    let s = front + rest;
    assert forall|i: int| 0 <= i < front.len() implies ws(#[trigger] s[i]) by {
        assert(s[i] == front[i]);
    }
    if rest.len() > 0 {
        assert(s[front.len() as int] == rest[0]);
    }
    lemma_span_is(s, ws, front.len() as int);
    assert(s.skip(front.len() as int) =~= rest);
}

/// Taking punctuation off the end leaves what stands before it.
pub proof fn law_unpunctuated_leaves_the_core(core: Seq<char>, marks: Seq<char>)
    requires
        core.len() > 0 ==> !ascii_punctuation(core.last()),
        forall|i: int| 0 <= i < marks.len() ==> ascii_punctuation(#[trigger] marks[i]),
    ensures
        unpunctuated(core + marks) == core,
{
    let p = |c: char| ascii_punctuation(c);
    let s = core + marks;
    let n = core.len() as int;
    assert forall|i: int| n <= i < s.len() implies p(#[trigger] s[i]) by {
        assert(s[i] == marks[i - n]);
    }
    if n > 0 {
        assert(s[n - 1] == core.last());
    }
    lemma_kept_is(s, p, n);
    assert(s.take(n) =~= core);
}

/// The first of a character parts a text into what stands before it and behind it.
pub proof fn law_first_char_parts_the_text(front: Seq<char>, c: char, rest: Seq<char>)
    requires
        !front.contains(c),
    ensures
        before_first(front + seq![c] + rest, c) == front,
        after_first(front + seq![c] + rest, c) == Some(rest),
        before_first(front, c) == front,
        after_first(front, c) is None,
{
    let s = front + seq![c] + rest;
    let n = front.len() as int;
    let other = other_than(c);
    assert forall|i: int| 0 <= i < n implies other(#[trigger] front[i]) by {
        assert(front.contains(front[i]));
    }
    assert forall|i: int| 0 <= i < n implies other(#[trigger] s[i]) by {
        assert(s[i] == front[i]);
    }
    assert(s[n] == c);
    lemma_span_is(s, other, n);
    lemma_span_is(front, other, n);
    assert(s.take(n) =~= front);
    assert(s.skip(n + 1) =~= rest);
    assert(front.take(n) =~= front);
}

/// A prefix is taken off exactly where the text starts with it.
pub proof fn law_prefix_is_taken_off(s: Seq<char>, pat: Seq<char>)
    ensures
        without_prefix(pat + s, pat) == Some(s),
        without_prefix(s, pat) matches Some(rest) ==> s == pat + rest,
{
    assert((pat + s).subrange(0, pat.len() as int) =~= pat);
    assert((pat + s).skip(pat.len() as int) =~= s);
    if occurs_at(s, pat, 0) {
        let rest = s.skip(pat.len() as int);
        assert forall|k: int| 0 <= k < s.len() implies s[k] == (pat + rest)[k] by {
            if k < pat.len() {
                assert(s.subrange(0, pat.len() as int)[k] == pat[k]);
            }
        }
        assert(s =~= pat + rest);
    }
}

/// What stands behind the first label runs to the next label, or to the end where
/// there is no other. Without a label there is nothing.
pub proof fn law_piece_runs_to_the_next_label(s: Seq<char>, label: Seq<char>, i: int)
    requires
        occurs_at(s, label, i),
        forall|k: int| 0 <= k < i ==> !occurs_at(s, label, k),
    ensures
        ({
            let rest = s.skip(i + label.len());
            &&& !has_text(rest, label) ==> piece_behind(s, label) == Some(rest)
            &&& forall|j: int|
                #[trigger] occurs_at(rest, label, j) && (forall|k: int|
                    0 <= k < j ==> !occurs_at(rest, label, k)) ==> piece_behind(s, label) == Some(
                    rest.take(j),
                )
        }),
{
    lemma_text_pos(s, label, 0);
    let rest = s.skip(i + label.len());
    lemma_text_pos(rest, label, 0);
}

/// Without a label nothing stands behind it.
pub proof fn law_no_label_no_piece(s: Seq<char>, label: Seq<char>)
    requires
        !has_text(s, label),
    ensures
        piece_behind(s, label) is None,
{
    law_found_iff_present(s, label);
}

/// The lines of a text: each ends at its line break, with or without a carriage
/// return, and the last may have none.
pub proof fn law_lines_end_at_breaks(line: Seq<char>, rest: Seq<char>)
    requires
        !line.contains('\n'),
    ensures
        lines_of(line + seq!['\n'] + rest) == seq![
            if line.len() > 0 && line.last() == '\r' {
                line.drop_last()
            } else {
                line
            },
        ] + lines_of(rest),
        line.len() > 0 ==> lines_of(line) == seq![line],
        lines_of(Seq::empty()) == Seq::<Seq<char>>::empty(),
{
    law_first_char_parts_the_text(line, '\n', rest);
    lemma_line_of_first(line, rest);
    lemma_line_of_only(line);
    let s = line + seq!['\n'] + rest;
    assert(s.len() > 0);
}

/// The words of a text: each runs from one whitespace to the next.
pub proof fn law_words_stand_between_whitespace(
    front: Seq<char>,
    word: Seq<char>,
    rest: Seq<char>,
)
    requires
        blank(front),
        word.len() > 0,
        forall|i: int| 0 <= i < word.len() ==> !whitespace(#[trigger] word[i]),
        rest.len() > 0 ==> whitespace(rest.first()),
    ensures
        words_of(front + word + rest) == seq![word] + words_of(rest),
        words_of(front) == Seq::<Seq<char>>::empty(),
{
    let solid = |c: char| !whitespace(c);
    let t = word + rest;
    assert(front + word + rest =~= front + t);
    assert(t.first() == word[0]);
    law_trim_start_leaves_the_rest(front, t);
    let n = word.len() as int;
    assert forall|i: int| 0 <= i < n implies solid(#[trigger] t[i]) by {
        assert(t[i] == word[i]);
    }
    if rest.len() > 0 {
        assert(t[n] == rest[0]);
    }
    lemma_span_is(t, solid, n);
    assert(t.take(n) =~= word);
    assert(t.skip(n) =~= rest);
    law_trim_start_leaves_the_rest(front, Seq::empty());
    assert(front + Seq::<char>::empty() =~= front);
}

/// Pieces are put together in order with one space between each two.
pub proof fn law_joined_with_single_spaces(pieces: Seq<Seq<char>>, piece: Seq<char>)
    ensures
        joined(Seq::empty()) == Seq::<char>::empty(),
        joined(seq![piece]) == piece,
        pieces.len() > 0 ==> joined(pieces.push(piece)) == joined(pieces) + seq![' '] + piece,
{
    if pieces.len() > 0 {
        assert(pieces.push(piece).drop_last() =~= pieces);
    }
}

/// A number is read digit by digit: one more digit is ten times the number and the
/// digit, as long as that fits.
pub proof fn law_digits_make_the_number(s: Seq<char>, c: char)
    requires
        number_in(s) is Some,
    ensures
        '0' <= c <= '9' ==> {
            let n = number_in(s).unwrap() * 10 + (c as u32 - '0' as u32);
            if n <= u32::MAX {
                number_in(s.push(c)) == Some(n as u32)
            } else {
                number_in(s.push(c)) is None
            }
        },
        !('0' <= c <= '9') ==> number_in(s.push(c)) is None,
{
    let digits = unsigned_digits(s);
    let more = unsigned_digits(s.push(c));
    assert(more =~= digits.push(c));
    assert(more.drop_last() =~= digits);
    assert(more.last() == c);
    assert(more[digits.len() as int] == c);
    if '0' <= c <= '9' {
        assert forall|i: int| 0 <= i < more.len() implies ascii_digit(#[trigger] more[i]) by {
            if i < digits.len() {
                assert(more[i] == digits[i]);
            }
        }
    }
}

/// A single digit is its own number, and anything else alone is none.
pub proof fn law_one_digit_is_a_number(c: char)
    ensures
        '0' <= c <= '9' ==> number_in(seq![c]) == Some((c as u32 - '0' as u32) as u32),
        !('0' <= c <= '9') ==> number_in(seq![c]) is None,
        number_in(Seq::empty()) is None,
{
    reveal_with_fuel(decimal, 2);
    if c == '+' {
        assert(seq![c].drop_first().len() == 0);
    } else {
        assert(unsigned_digits(seq![c])[0] == c);
    }
}

/// A plus sign before a number that has none does not change it, and a second one
/// makes it none.
pub proof fn law_plus_sign_is_passed_over(s: Seq<char>)
    ensures
        s.len() > 0 && s[0] != '+' ==> number_in(seq!['+'] + s) == number_in(s),
        number_in(seq!['+', '+'] + s) is None,
{
    assert((seq!['+'] + s).drop_first() =~= s);
    let twice = seq!['+', '+'] + s;
    assert(twice.drop_first()[0] == '+');
}

/// A text that is no number does not become one by what is written behind it,
/// unless it is empty or a plus sign alone.
pub proof fn law_no_number_stays_none(s: Seq<char>, c: char)
    requires
        number_in(s) is None,
        unsigned_digits(s).len() > 0,
    ensures
        number_in(s.push(c)) is None,
{
    let digits = unsigned_digits(s);
    let more = unsigned_digits(s.push(c));
    assert(more =~= digits.push(c));
    if forall|i: int| 0 <= i < more.len() ==> ascii_digit(#[trigger] more[i]) {
        assert forall|i: int| 0 <= i < digits.len() implies ascii_digit(#[trigger] digits[i]) by {
            assert(more[i] == digits[i]);
        }
        lemma_decimal_grows(more, digits.len() as int);
        assert(more.take(digits.len() as int) =~= digits);
    }
}

// ---------------------------------------------------------------------------
// Comparing and taking apart
// ---------------------------------------------------------------------------

/// Whether two strings hold the same characters.
pub fn str_eq(a: &str, b: &str) -> (same: bool)
    ensures
        same == (a@ == b@),
{
    let x = a.as_bytes();
    let y = b.as_bytes();
    proof {
        encode_utf8_decode_utf8(a@);
        encode_utf8_decode_utf8(b@);
    }
    if x.len() != y.len() {
        return false;
    }
    let mut i: usize = 0;
    while i < x.len()
        invariant
            i <= x@.len(),
            x@.len() == y@.len(),
            forall|j: int| 0 <= j < i ==> x@[j] == y@[j],
            x@ == encode_utf8(a@),
            y@ == encode_utf8(b@),
        decreases x@.len() - i,
    {
        if x[i] != y[i] {
            return false;
        }
        i += 1;
    }
    assert(x@ =~= y@);
    true
}

/// The characters of a string, in order.
pub fn chars_of(s: &str) -> (chars: Vec<char>)
    ensures
        chars@ == s@,
{
    let mut chars: Vec<char> = Vec::new();
    for c in it: s.chars()
        invariant
            chars@ == it.seq().take(it.index() as int),
            it.seq() == s@,
    {
        chars.push(c);
    }
    chars
}

/// Whether the characters of `pat` stand in `chars` from position `at` on.
fn stands_at(chars: &Vec<char>, pat: &Vec<char>, at: usize) -> (b: bool)
    requires
        at + pat@.len() <= chars@.len(),
    ensures
        b == occurs_at(chars@, pat@, at as int),
{
    let total: usize = chars.len();
    let mut k: usize = 0;
    while k < pat.len()
        invariant
            k <= pat@.len(),
            at + pat@.len() <= chars@.len(),
            total == chars@.len(),
            forall|j: int| 0 <= j < k ==> chars@[at + j] == pat@[j],
        decreases pat@.len() - k,
    {
        if chars[at + k] != pat[k] {
            assert(chars@.subrange(at as int, at + pat@.len())[k as int] != pat@[k as int]);
            return false;
        }
        k += 1;
    }
    assert(chars@.subrange(at as int, at + pat@.len()) =~= pat@);
    true
}

/// The first position at which `pat` stands in `chars`.
fn position(chars: &Vec<char>, pat: &Vec<char>) -> (found: Option<usize>)
    ensures
        match found {
            Some(i) => text_pos(chars@, pat@, 0) == Some(i as int),
            None => text_pos(chars@, pat@, 0) is None,
        },
{
    if pat.len() > chars.len() {
        return None;
    }
    let mut i: usize = 0;
    while i <= chars.len() - pat.len()
        invariant
            i + pat@.len() <= chars@.len() + 1,
            pat@.len() <= chars@.len(),
            text_pos(chars@, pat@, 0) == text_pos(chars@, pat@, i as int),
        decreases chars@.len() + 1 - i,
    {
        if stands_at(chars, pat, i) {
            return Some(i);
        }
        if i == chars.len() - pat.len() {
            assert(text_pos(chars@, pat@, i + 1) is None);
            return None;
        }
        i += 1;
    }
    None
}

/// Whether `pat` stands somewhere in `s`.
pub fn contains(s: &str, pat: &str) -> (b: bool)
    ensures
        b == has_text(s@, pat@),
{
    let chars = chars_of(s);
    let pattern = chars_of(pat);
    proof {
        law_found_iff_present(s@, pat@);
    }
    match position(&chars, &pattern) {
        Some(_) => true,
        None => false,
    }
}

/// What stands between the first `pat` and the next one, or the end of `s`.
pub fn piece_after<'a>(s: &'a str, pat: &str) -> (piece: Option<&'a str>)
    ensures
        match piece {
            Some(p) => piece_behind(s@, pat@) == Some(p@),
            None => piece_behind(s@, pat@) is None,
        },
{
    let chars = chars_of(s);
    let pattern = chars_of(pat);
    proof {
        lemma_text_pos(s@, pat@, 0);
    }
    match position(&chars, &pattern) {
        None => None,
        Some(i) => {
            let total: usize = chars.len();
            assert(i + pat@.len() <= total);
            let rest = s.substring_char(i + pattern.len(), total);
            assert(rest@ =~= s@.skip(i + pat@.len()));
            let tail = chars_of(rest);
            proof {
                lemma_text_pos(rest@, pat@, 0);
            }
            match position(&tail, &pattern) {
                None => Some(rest),
                Some(j) => {
                    let piece = rest.substring_char(0, j);
                    assert(piece@ =~= rest@.take(j as int));
                    Some(piece)
                },
            }
        },
    }
}

/// `s` behind the prefix `pat`, if it starts with it.
pub fn strip_prefix<'a>(s: &'a str, pat: &str) -> (rest: Option<&'a str>)
    ensures
        match rest {
            Some(r) => without_prefix(s@, pat@) == Some(r@),
            None => without_prefix(s@, pat@) is None,
        },
{
    let chars = chars_of(s);
    let pattern = chars_of(pat);
    if pattern.len() <= chars.len() && stands_at(&chars, &pattern, 0) {
        let rest = s.substring_char(pattern.len(), chars.len());
        assert(rest@ =~= s@.skip(pat@.len() as int));
        Some(rest)
    } else {
        None
    }
}

/// Where the first `c` stands; the length of `chars` where there is none.
fn char_position(chars: &Vec<char>, c: char) -> (n: usize)
    ensures
        n == char_pos(chars@, c),
        n <= chars@.len(),
{
    let mut n: usize = 0;
    while n < chars.len() && chars[n] != c
        invariant
            n <= chars@.len(),
            forall|j: int| 0 <= j < n ==> chars@[j] != c,
        decreases chars@.len() - n,
    {
        n += 1;
    }
    proof {
        lemma_span_is(chars@, other_than(c), n as int);
    }
    n
}

/// What stands before the first `c`; all of `s` where there is none.
pub fn before_char(s: &str, c: char) -> (part: &str)
    ensures
        part@ == before_first(s@, c),
{
    let chars = chars_of(s);
    let n: usize = char_position(&chars, c);
    let part = s.substring_char(0, n);
    assert(part@ =~= s@.take(n as int));
    part
}

/// What stands behind the first `c`, if there is one.
pub fn after_char(s: &str, c: char) -> (part: Option<&str>)
    ensures
        match part {
            Some(p) => after_first(s@, c) == Some(p@),
            None => after_first(s@, c) is None,
        },
{
    let chars = chars_of(s);
    let n: usize = char_position(&chars, c);
    if n < chars.len() {
        let part = s.substring_char(n + 1, chars.len());
        assert(part@ =~= s@.skip(n + 1));
        Some(part)
    } else {
        None
    }
}

/// `s` without the whitespace at its front.
pub fn trim_start(s: &str) -> (t: &str)
    ensures
        t@ == trimmed_start(s@),
{
    let chars = chars_of(s);
    let mut n: usize = 0;
    while n < chars.len() && is_whitespace(chars[n])
        invariant
            n <= chars@.len(),
            forall|j: int| 0 <= j < n ==> whitespace(chars@[j]),
        decreases chars@.len() - n,
    {
        n += 1;
    }
    proof {
        lemma_span_is(chars@, |c: char| whitespace(c), n as int);
    }
    let t = s.substring_char(n, chars.len());
    assert(t@ =~= s@.skip(n as int));
    t
}

/// `s` without the whitespace at either end.
pub fn trim(s: &str) -> (t: &str)
    ensures
        t@ == trimmed(s@),
{
    let front = trim_start(s);
    let chars = chars_of(front);
    let mut n: usize = chars.len();
    while n > 0 && is_whitespace(chars[n - 1])
        invariant
            n <= chars@.len(),
            forall|j: int| n <= j < chars@.len() ==> whitespace(chars@[j]),
        decreases n,
    {
        n -= 1;
    }
    proof {
        lemma_kept_is(chars@, |c: char| whitespace(c), n as int);
    }
    let t = front.substring_char(0, n);
    assert(t@ =~= front@.take(n as int));
    t
}

/// `s` without the ASCII punctuation at its end.
pub fn trim_end_punctuation(s: &str) -> (t: &str)
    ensures
        t@ == unpunctuated(s@),
{
    let chars = chars_of(s);
    let mut n: usize = chars.len();
    while n > 0 && is_ascii_punctuation(chars[n - 1])
        invariant
            n <= chars@.len(),
            forall|j: int| n <= j < chars@.len() ==> ascii_punctuation(chars@[j]),
        decreases n,
    {
        n -= 1;
    }
    proof {
        lemma_kept_is(chars@, |c: char| ascii_punctuation(c), n as int);
    }
    let t = s.substring_char(0, n);
    assert(t@ =~= s@.take(n as int));
    t
}

/// The first line of `s`, without its line break.
pub fn first_line(s: &str) -> (line: &str)
    ensures
        line@ == line_of(s@),
{
    let chars = chars_of(s);
    let n: usize = char_position(&chars, '\n');
    let end: usize = if n < chars.len() && n > 0 && chars[n - 1] == '\r' {
        n - 1
    } else {
        n
    };
    let line = s.substring_char(0, end);
    assert(line@ =~= line_of(s@)) by {
        assert(before_first(s@, '\n') =~= s@.take(n as int));
    }
    line
}

/// The character sequences of a vector of string slices.
pub open spec fn slice_models(parts: Seq<&str>) -> Seq<Seq<char>> {
    Seq::new(parts.len(), |i: int| parts[i]@)
}

/// The lines of `s`, without their line breaks.
pub fn lines(s: &str) -> (parts: Vec<&str>)
    ensures
        slice_models(parts@) == lines_of(s@),
{
    let mut parts: Vec<&str> = Vec::new();
    let mut rest = s;
    assert(slice_models(parts@) + lines_of(rest@) =~= lines_of(s@));
    loop
        invariant
            slice_models(parts@) + lines_of(rest@) == lines_of(s@),
        decreases rest@.len(),
    {
        if rest.is_empty() {
            assert(slice_models(parts@) =~= lines_of(s@));
            return parts;
        }
        let line = first_line(rest);
        let ghost before = parts@;
        parts.push(line);
        assert(slice_models(parts@) =~= slice_models(before).push(line@));
        match after_char(rest, '\n') {
            Some(r) => {
                assert(slice_models(parts@) + lines_of(r@) =~= slice_models(before) + lines_of(
                    rest@,
                ));
                proof {
                    lemma_span_bounds(rest@, other_than('\n'));
                }
                rest = r;
            },
            None => {
                assert(slice_models(parts@) =~= slice_models(before) + lines_of(rest@));
                return parts;
            },
        }
    }
}

/// The pieces of `s` that whitespace separates.
pub fn split_whitespace(s: &str) -> (parts: Vec<&str>)
    ensures
        slice_models(parts@) == words_of(s@),
{
    let mut parts: Vec<&str> = Vec::new();
    let mut rest = s;
    assert(slice_models(parts@) + words_of(rest@) =~= words_of(s@));
    loop
        invariant
            slice_models(parts@) + words_of(rest@) == words_of(s@),
        decreases rest@.len(),
    {
        let front = trim_start(rest);
        let chars = chars_of(front);
        if chars.len() == 0 {
            assert(slice_models(parts@) =~= words_of(s@));
            return parts;
        }
        let mut n: usize = 0;
        while n < chars.len() && !is_whitespace(chars[n])
            invariant
                n <= chars@.len(),
                forall|j: int| 0 <= j < n ==> !whitespace(chars@[j]),
            decreases chars@.len() - n,
        {
            n += 1;
        }
        proof {
            lemma_span_is(chars@, |c: char| !whitespace(c), n as int);
            lemma_span_bounds(rest@, |c: char| whitespace(c));
        }
        let word = front.substring_char(0, n);
        assert(word@ =~= front@.take(n as int));
        let tail = front.substring_char(n, chars.len());
        assert(tail@ =~= front@.skip(n as int));
        let ghost before = parts@;
        parts.push(word);
        assert(slice_models(parts@) =~= slice_models(before).push(word@));
        assert(slice_models(parts@) + words_of(tail@) =~= slice_models(before) + words_of(rest@));
        assert(front@.len() > 0 ==> !whitespace(front@[0])) by {
            if front@.len() > 0 {
                let k = span(rest@, |c: char| whitespace(c));
                assert(front@[0] == rest@[k]);
            }
        }
        assert(n > 0);
        rest = tail;
    }
}

/// The first `n` of the parts, put together with one space between each two.
pub fn join_first(parts: &Vec<&str>, n: usize) -> (text: String)
    requires
        n <= parts@.len(),
    ensures
        text@ == joined(slice_models(parts@).take(n as int)),
{
    let mut text = String::new();
    let ghost all = slice_models(parts@);
    proof {
        reveal_strlit(" ");
    }
    assert(" "@ =~= seq![' ']);
    let mut i: usize = 0;
    while i < n
        invariant
            i <= n <= parts@.len(),
            all == slice_models(parts@),
            text@ == joined(all.take(i as int)),
            " "@ == seq![' '],
        decreases n - i,
    {
        assert(all.take(i + 1).drop_last() =~= all.take(i as int));
        if i > 0 {
            text.append(" ");
        }
        text.append(parts[i]);
        i += 1;
        assert(text@ =~= joined(all.take(i as int)));
    }
    text
}

/// The number that `s` writes, if it is one and fits.
pub fn parse_u32(s: &str) -> (n: Option<u32>)
    ensures
        n == number_in(s@),
{
    let chars = chars_of(s);
    let start: usize = if chars.len() > 0 && chars[0] == '+' {
        1
    } else {
        0
    };
    let ghost digits = unsigned_digits(s@);
    assert(digits =~= chars@.skip(start as int));
    if start == chars.len() {
        return None;
    }
    let mut value: u32 = 0;
    let mut i: usize = start;
    assert(digits.take(0) =~= Seq::<char>::empty());
    while i < chars.len()
        invariant
            start <= i <= chars@.len(),
            digits == unsigned_digits(s@),
            digits == chars@.skip(start as int),
            digits.len() == chars@.len() - start,
            forall|j: int| 0 <= j < i - start ==> ascii_digit(#[trigger] digits[j]),
            value == decimal(digits.take(i - start)),
        decreases chars@.len() - i,
    {
        let c = chars[i];
        assert(c == digits[i - start]);
        if !('0' <= c && c <= '9') {
            return None;
        }
        assert(digits.take(i - start + 1).drop_last() =~= digits.take(i - start));
        assert(digits.take(i - start + 1).last() == c);
        let next: u64 = value as u64 * 10 + (c as u32 - '0' as u32) as u64;
        if next > u32::MAX as u64 {
            proof {
                lemma_decimal_grows(digits, i - start + 1);
            }
            return None;
        }
        value = next as u32;
        i += 1;
    }
    assert(digits.take(i - start) =~= digits);
    Some(value)
}

/// Several texts read one for one, in order.
pub proof fn law_texts_read_one_for_one(parts: Seq<&str>)
    ensures
        slice_models(parts).len() == parts.len(),
        forall|i: int| 0 <= i < parts.len() ==> #[trigger] slice_models(parts)[i] == parts[i]@,
{
}

} // verus!
