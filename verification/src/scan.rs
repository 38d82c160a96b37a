//! Finding the JSON object or array that a text holds.
//!
//! A log entry surrounds its JSON with header text. These functions find where
//! the JSON starts and where the delimiter that opened it is closed again,
//! passing over delimiters inside string literals.

use vstd::prelude::*;
use crate::text;
use crate::text::chars_of;

verus! {

/// Where a scan stands: how many delimiters are open, whether it is inside a
/// string literal, and whether the next character is escaped there.
pub struct ScanState {
    pub depth: int,
    pub in_string: bool,
    pub escaped: bool,
}

/// Whether `c` counts as a delimiter in state `st`.
pub open spec fn counts(st: ScanState) -> bool {
    !st.in_string && !st.escaped
}

/// The state behind one more character.
pub open spec fn step(st: ScanState, c: char, open: char, close: char) -> ScanState {
    if st.escaped {
        ScanState { escaped: false, ..st }
    } else if c == '\\' && st.in_string {
        ScanState { escaped: true, ..st }
    } else if c == '"' {
        ScanState { in_string: !st.in_string, ..st }
    } else if c == open && !st.in_string {
        ScanState { depth: st.depth + 1, ..st }
    } else if c == close && !st.in_string {
        ScanState { depth: st.depth - 1, ..st }
    } else {
        st
    }
}

/// The state behind all of `s`.
pub open spec fn scanned(s: Seq<char>, open: char, close: char) -> ScanState
    decreases s.len(),
{
    if s.len() == 0 {
        ScanState { depth: 0, in_string: false, escaped: false }
    } else {
        step(scanned(s.drop_last(), open, close), s.last(), open, close)
    }
}

/// Whether the first `n` characters of `s` end with a delimiter that closes
/// the last one open.
pub open spec fn closes_at(s: Seq<char>, open: char, close: char, n: int) -> bool {
    &&& 0 < n <= s.len()
    &&& s[n - 1] == close
    &&& counts(scanned(s.take(n - 1), open, close))
    &&& scanned(s.take(n), open, close).depth == 0
}

/// The least length from `n` on at which `s` closes.
pub open spec fn closing_len(s: Seq<char>, open: char, close: char, n: int) -> Option<int>
    decreases s.len() - n + 1,
{
    if n > s.len() {
        None
    } else if closes_at(s, open, close, n) {
        Some(n)
    } else {
        closing_len(s, open, close, n + 1)
    }
}

/// The front of `s` up to where its first delimiter is closed again.
pub open spec fn balanced_front(s: Seq<char>, open: char, close: char) -> Option<Seq<char>> {
    match closing_len(s, open, close, 1) {
        Some(n) => Some(s.take(n)),
        None => None,
    }
}

/// The first JSON object of a text: from the first `{` to the `}` that closes
/// it. Nothing where there is no `{` or it is never closed.
pub open spec fn first_object(s: Seq<char>) -> Option<Seq<char>> {
    balanced_front(s.skip(text::char_pos(s, '{')), '{', '}')
}

/// A character that opens an object or an array.
pub open spec fn opener(c: char) -> bool {
    c == '{' || c == '['
}

/// Where a search for JSON starts: behind the `]` of a bracketed header at the
/// front of the text, or at its beginning.
pub open spec fn search_start(s: Seq<char>) -> int {
    if s.len() > 0 && s[0] == '[' && text::char_pos(s, ']') < s.len() {
        text::char_pos(s, ']') + 1
    } else {
        0
    }
}

/// The first JSON object or array of a text, behind its bracketed header. An
/// object ends with the `}` that closes it, an array with the `]`.
pub open spec fn first_value(s: Seq<char>) -> Option<Seq<char>> {
    let region = s.skip(search_start(s));
    let rest = region.skip(text::span(region, |c: char| !opener(c)));
    if rest.len() == 0 {
        None
    } else if rest[0] == '{' {
        balanced_front(rest, '{', '}')
    } else {
        balanced_front(rest, '[', ']')
    }
}

// ---------------------------------------------------------------------------
// Facts about scans
// ---------------------------------------------------------------------------

proof fn lemma_scan_step(s: Seq<char>, open: char, close: char, n: int)
    requires
        0 <= n < s.len(),
    ensures
        scanned(s.take(n + 1), open, close) == step(
            scanned(s.take(n), open, close),
            s[n],
            open,
            close,
        ),
{
    assert(s.take(n + 1).drop_last() =~= s.take(n));
}

/// What the least closing length is, in terms of those it was chosen from.
pub proof fn lemma_closing_len(s: Seq<char>, open: char, close: char, n: int)
    ensures
        match closing_len(s, open, close, n) {
            Some(k) => n <= k <= s.len() && closes_at(s, open, close, k) && forall|j: int|
                n <= j < k ==> !closes_at(s, open, close, j),
            None => forall|j: int| n <= j <= s.len() ==> !closes_at(s, open, close, j),
        },
    decreases s.len() - n + 1,
{
    if n <= s.len() && !closes_at(s, open, close, n) {
        lemma_closing_len(s, open, close, n + 1);
    }
}

proof fn lemma_closing_len_is(s: Seq<char>, open: char, close: char, k: int)
    requires
        closes_at(s, open, close, k),
        forall|j: int| 1 <= j < k ==> !closes_at(s, open, close, j),
    ensures
        closing_len(s, open, close, 1) == Some(k),
{
    lemma_closing_len(s, open, close, 1);
}

/// A text that starts with its opening delimiter has that delimiter open until
/// it first closes.
pub proof fn lemma_open_until_closed(s: Seq<char>, open: char, close: char, n: int)
    requires
        s.len() > 0,
        s[0] == open,
        open != close,
        open != '"',
        open != '\\',
        close != '"',
        close != '\\',
        1 <= n <= s.len(),
        forall|j: int| 1 <= j <= n ==> !closes_at(s, open, close, j),
    ensures
        1 <= scanned(s.take(n), open, close).depth <= n,
    decreases n,
{
    lemma_scan_step(s, open, close, n - 1);
    if n == 1 {
        assert(s.take(0).len() == 0);
    } else {
        lemma_open_until_closed(s, open, close, n - 1);
        assert(!closes_at(s, open, close, n));
    }
}

proof fn lemma_balanced_front_is_its_own(s: Seq<char>, open: char, close: char)
    requires
        balanced_front(s, open, close) is Some,
    ensures
        balanced_front(balanced_front(s, open, close).unwrap(), open, close) == balanced_front(
            s,
            open,
            close,
        ),
{
    lemma_closing_len(s, open, close, 1);
    let n = closing_len(s, open, close, 1).unwrap();
    let t = s.take(n);
    assert forall|j: int| 1 <= j <= n implies closes_at(t, open, close, j) == closes_at(
        s,
        open,
        close,
        j,
    ) by {
        assert(t.take(j) =~= s.take(j));
        assert(t.take(j - 1) =~= s.take(j - 1));
    }
    lemma_closing_len_is(t, open, close, n);
    assert(t.take(n) =~= t);
}

/// What a text is found to hold as its first object stands in the text, starts
/// with `{` and ends with `}`.
pub proof fn law_object_is_delimited(s: Seq<char>)
    requires
        first_object(s) is Some,
    ensures
        text::has_text(s, first_object(s).unwrap()),
        first_object(s).unwrap().first() == '{',
        first_object(s).unwrap().last() == '}',
        first_object(s).unwrap().len() >= 2,
{
    text::lemma_span_bounds(s, text::other_than('{'));
    let p = text::char_pos(s, '{');
    let rest = s.skip(p);
    lemma_closing_len(rest, '{', '}', 1);
    let n = closing_len(rest, '{', '}', 1).unwrap();
    assert(rest[0] == s[p]);
    assert(s.subrange(p, p + n) =~= rest.take(n));
    assert(text::occurs_at(s, rest.take(n), p));
    if n == 1 {
        assert(rest[0] == '}');
    }
}

/// Inside a found object its opening brace is open at every point before the
/// end and closed at the end.
pub proof fn law_object_is_balanced(s: Seq<char>, k: int)
    requires
        first_object(s) is Some,
        1 <= k < first_object(s).unwrap().len(),
    ensures
        scanned(first_object(s).unwrap(), '{', '}').depth == 0,
        scanned(first_object(s).unwrap().take(k), '{', '}').depth >= 1,
{
    text::lemma_span_bounds(s, text::other_than('{'));
    let p = text::char_pos(s, '{');
    let rest = s.skip(p);
    lemma_closing_len(rest, '{', '}', 1);
    let n = closing_len(rest, '{', '}', 1).unwrap();
    assert(rest[0] == s[p]);
    lemma_open_until_closed(rest, '{', '}', k);
    assert(rest.take(n).take(k) =~= rest.take(k));
}

/// A found object is itself the first object of its own text.
pub proof fn law_object_found_again(s: Seq<char>)
    requires
        first_object(s) is Some,
    ensures
        first_object(first_object(s).unwrap()) == first_object(s),
{
    law_object_is_delimited(s);
    let t = first_object(s).unwrap();
    assert(text::char_pos(t, '{') == 0) by {
        text::lemma_span_is(t, text::other_than('{'), 0);
    }
    assert(t.skip(0) =~= t);
    lemma_balanced_front_is_its_own(s.skip(text::char_pos(s, '{')), '{', '}');
}

/// Header text without a `{` in it does not change which object is found.
pub proof fn law_object_ignores_header(header: Seq<char>, s: Seq<char>)
    requires
        !header.contains('{'),
    ensures
        first_object(header + s) == first_object(s),
{
    let both = header + s;
    let p = text::char_pos(s, '{');
    text::lemma_span_bounds(s, text::other_than('{'));
    assert forall|i: int| 0 <= i < header.len() + p implies (text::other_than('{'))(
        #[trigger] both[i],
    ) by {
        if i < header.len() {
            assert(header.contains(header[i]));
        } else {
            assert(both[i] == s[i - header.len()]);
        }
    }
    text::lemma_span_is(both, text::other_than('{'), header.len() + p);
    assert(both.skip(header.len() + p) =~= s.skip(p));
}

/// What a text is found to hold as its first object or array stands in the text,
/// and starts and ends with delimiters that belong together.
pub proof fn law_value_is_delimited(s: Seq<char>)
    requires
        first_value(s) is Some,
    ensures
        text::has_text(s, first_value(s).unwrap()),
        ({
            let t = first_value(s).unwrap();
            ||| (t.first() == '{' && t.last() == '}')
            ||| (t.first() == '[' && t.last() == ']')
        }),
{
    let start = search_start(s);
    text::lemma_span_bounds(s, text::other_than(']'));
    let region = s.skip(start);
    let skipped = text::span(region, |c: char| !opener(c));
    text::lemma_span_bounds(region, |c: char| !opener(c));
    let rest = region.skip(skipped);
    assert(rest[0] == region[skipped]);
    let (open, close) = if rest[0] == '{' {
        ('{', '}')
    } else {
        ('[', ']')
    };
    lemma_closing_len(rest, open, close, 1);
    let n = closing_len(rest, open, close, 1).unwrap();
    let p = start + skipped;
    assert(s.subrange(p, p + n) =~= rest.take(n));
    assert(text::occurs_at(s, rest.take(n), p));
}

/// A bracketed header is not taken for an array: the search starts behind it.
pub proof fn law_header_is_no_array(header: Seq<char>, s: Seq<char>)
    requires
        header.len() >= 2,
        header.first() == '[',
        header.last() == ']',
        !header.drop_last().contains(']'),
    ensures
        search_start(header + s) == header.len(),
{
    let both = header + s;
    let n = header.len() - 1;
    assert forall|i: int| 0 <= i < n implies (text::other_than(']'))(#[trigger] both[i]) by {
        assert(both[i] == header.drop_last()[i]);
        assert(header.drop_last().contains(both[i]));
    }
    assert(both[n] == ']');
    text::lemma_span_is(both, text::other_than(']'), n);
}

/// What closes at the front of a text closes there whatever follows.
proof fn lemma_balanced_front_ignores_tail(
    s: Seq<char>,
    tail: Seq<char>,
    open: char,
    close: char,
)
    requires
        balanced_front(s, open, close) is Some,
    ensures
        balanced_front(s + tail, open, close) == balanced_front(s, open, close),
{
    let both = s + tail;
    lemma_closing_len(s, open, close, 1);
    let n = closing_len(s, open, close, 1).unwrap();
    assert forall|j: int| 1 <= j <= n implies closes_at(both, open, close, j) == closes_at(
        s,
        open,
        close,
        j,
    ) by {
        assert(both.take(j) =~= s.take(j));
        assert(both.take(j - 1) =~= s.take(j - 1));
    }
    lemma_closing_len_is(both, open, close, n);
    assert(both.take(n) =~= s.take(n));
}

/// A span that ends within a text ends there whatever follows.
proof fn lemma_span_ignores_tail(s: Seq<char>, tail: Seq<char>, p: spec_fn(char) -> bool)
    requires
        text::span(s, p) < s.len(),
    ensures
        text::span(s + tail, p) == text::span(s, p),
{
    text::lemma_span_bounds(s, p);
    let both = s + tail;
    let n = text::span(s, p);
    assert forall|i: int| 0 <= i < n implies p(#[trigger] both[i]) by {
        assert(both[i] == s[i]);
    }
    assert(both[n] == s[n]);
    text::lemma_span_is(both, p, n);
}

/// Text behind a found object does not change which object is found.
pub proof fn law_object_ignores_tail(s: Seq<char>, tail: Seq<char>)
    requires
        first_object(s) is Some,
    ensures
        first_object(s + tail) == first_object(s),
{
    text::lemma_span_bounds(s, text::other_than('{'));
    let p = text::char_pos(s, '{');
    lemma_closing_len(s.skip(p), '{', '}', 1);
    lemma_span_ignores_tail(s, tail, text::other_than('{'));
    assert((s + tail).skip(p) =~= s.skip(p) + tail);
    lemma_balanced_front_ignores_tail(s.skip(p), tail, '{', '}');
}

/// Text behind a found object or array does not change which one is found.
pub proof fn law_value_ignores_tail(s: Seq<char>, tail: Seq<char>)
    requires
        first_value(s) is Some,
    ensures
        first_value(s + tail) == first_value(s),
{
    let both = s + tail;
    let closed = text::other_than(']');
    let shut = |c: char| !opener(c);
    text::lemma_span_bounds(s, closed);
    let start = search_start(s);
    let region = s.skip(start);
    text::lemma_span_bounds(region, shut);
    let skipped = text::span(region, shut);
    let rest = region.skip(skipped);
    assert(rest[0] == region[skipped]);
    let (open, close) = if rest[0] == '{' {
        ('{', '}')
    } else {
        ('[', ']')
    };
    if s[0] == '[' && text::char_pos(s, ']') == s.len() {
        // Without a `]` the bracket at the front opens an array that never closes.
        text::lemma_span_is(region, shut, 0);
        assert(region[0] == s[0]);
        lemma_closing_len(rest, open, close, 1);
        let n = closing_len(rest, open, close, 1).unwrap();
        assert(rest[n - 1] == s[n - 1]);
        assert(closed(s[n - 1]));
    } else if s[0] == '[' {
        lemma_span_ignores_tail(s, tail, closed);
    }
    assert(both[0] == s[0]);
    assert(search_start(both) == start);
    assert(both.skip(start) =~= region + tail);
    lemma_span_ignores_tail(region, tail, shut);
    assert((region + tail).skip(skipped) =~= rest + tail);
    lemma_balanced_front_ignores_tail(rest, tail, open, close);
}

// ---------------------------------------------------------------------------
// Nested text
// ---------------------------------------------------------------------------

/// One character of a string literal, or an escape: a backslash and the character
/// behind it.
pub enum Letter {
    Plain(char),
    Escape(char),
}

/// A piece of text between two delimiters: a character, a string literal, or more
/// such text between delimiters of its own.
pub enum Piece {
    Plain(char),
    Quoted(Seq<Letter>),
    Nested(Seq<Piece>),
}

/// The text of the letters.
pub open spec fn letters_text(letters: Seq<Letter>) -> Seq<char>
    decreases letters.len(),
{
    if letters.len() == 0 {
        Seq::empty()
    } else {
        letters_text(letters.drop_last()) + match letters.last() {
            Letter::Plain(c) => seq![c],
            Letter::Escape(c) => seq!['\\', c],
        }
    }
}

/// The text of one piece.
pub open spec fn piece_text(piece: Piece, open: char, close: char) -> Seq<char>
    decreases piece,
{
    match piece {
        Piece::Plain(c) => seq![c],
        Piece::Quoted(letters) => seq!['"'] + letters_text(letters) + seq!['"'],
        Piece::Nested(pieces) => seq![open] + pieces_text(pieces, open, close) + seq![close],
    }
}

/// The text of the pieces, one behind the other.
pub open spec fn pieces_text(pieces: Seq<Piece>, open: char, close: char) -> Seq<char>
    decreases pieces,
{
    if pieces.len() == 0 {
        Seq::empty()
    } else {
        pieces_text(pieces.drop_last(), open, close) + piece_text(
            pieces[pieces.len() - 1],
            open,
            close,
        )
    }
}

/// Whether a piece is what it says: no quote, backslash or delimiter stands where it
/// would mean something else.
pub open spec fn proper(piece: Piece, open: char, close: char) -> bool
    decreases piece,
{
    match piece {
        Piece::Plain(c) => c != '"' && c != open && c != close,
        Piece::Quoted(letters) => forall|i: int|
            0 <= i < letters.len() ==> ((#[trigger] letters[i]) matches Letter::Plain(c) ==> c
                != '"' && c != '\\'),
        Piece::Nested(pieces) => forall|i: int|
            0 <= i < pieces.len() ==> proper(#[trigger] pieces[i], open, close),
    }
}

/// Whether all pieces are what they say.
pub open spec fn all_proper(pieces: Seq<Piece>, open: char, close: char) -> bool {
    forall|i: int| 0 <= i < pieces.len() ==> proper(#[trigger] pieces[i], open, close)
}

/// Pieces between two delimiters.
pub open spec fn enclosed(pieces: Seq<Piece>, open: char, close: char) -> Seq<char> {
    seq![open] + pieces_text(pieces, open, close) + seq![close]
}

/// The state behind `s` where the scan stood at `st` before it.
spec fn ran(st: ScanState, s: Seq<char>, open: char, close: char) -> ScanState
    decreases s.len(),
{
    if s.len() == 0 {
        st
    } else {
        step(ran(st, s.drop_last(), open, close), s.last(), open, close)
    }
}

/// Whether `s` leaves the scan where it was and closes nothing that was open.
spec fn quiet(st: ScanState, s: Seq<char>, open: char, close: char) -> bool {
    &&& ran(st, s, open, close) == st
    &&& forall|k: int|
        0 <= k <= s.len() ==> (#[trigger] ran(st, s.take(k), open, close)).depth >= st.depth
}

proof fn lemma_ran_concat(st: ScanState, a: Seq<char>, b: Seq<char>, open: char, close: char)
    ensures
        ran(st, a + b, open, close) == ran(ran(st, a, open, close), b, open, close),
    decreases b.len(),
{
    if b.len() == 0 {
        assert(a + b =~= a);
    } else {
        assert((a + b).drop_last() =~= a + b.drop_last());
        assert((a + b).last() == b.last());
        lemma_ran_concat(st, a, b.drop_last(), open, close);
    }
}

proof fn lemma_scanned_is_ran(s: Seq<char>, open: char, close: char)
    ensures
        scanned(s, open, close) == ran(
            ScanState { depth: 0, in_string: false, escaped: false },
            s,
            open,
            close,
        ),
    decreases s.len(),
{
    if s.len() > 0 {
        lemma_scanned_is_ran(s.drop_last(), open, close);
    }
}

proof fn lemma_ran_one(st: ScanState, c: char, open: char, close: char)
    ensures
        ran(st, seq![c], open, close) == step(st, c, open, close),
{
    assert(seq![c].drop_last() =~= Seq::<char>::empty());
    assert(ran(st, Seq::empty(), open, close) == st);
}

proof fn lemma_quiet_concat(st: ScanState, a: Seq<char>, b: Seq<char>, open: char, close: char)
    requires
        quiet(st, a, open, close),
        quiet(st, b, open, close),
    ensures
        quiet(st, a + b, open, close),
{
    lemma_ran_concat(st, a, b, open, close);
    let s = a + b;
    assert forall|k: int| 0 <= k <= s.len() implies (#[trigger] ran(
        st,
        s.take(k),
        open,
        close,
    )).depth >= st.depth by {
        if k <= a.len() {
            assert(s.take(k) =~= a.take(k));
        } else {
            assert(s.take(k) =~= a + b.take(k - a.len()));
            lemma_ran_concat(st, a, b.take(k - a.len()), open, close);
            assert(ran(st, b.take(k - a.len()), open, close).depth >= st.depth);
        }
    }
}

/// A character that leaves the scan where it was is quiet.
proof fn lemma_quiet_one(st: ScanState, c: char, open: char, close: char)
    requires
        step(st, c, open, close) == st,
    ensures
        quiet(st, seq![c], open, close),
{
    lemma_ran_one(st, c, open, close);
    let s = seq![c];
    assert forall|k: int| 0 <= k <= s.len() implies (#[trigger] ran(
        st,
        s.take(k),
        open,
        close,
    )).depth >= st.depth by {
        if k == 0 {
            assert(s.take(k) =~= Seq::<char>::empty());
        } else {
            assert(s.take(k) =~= s);
        }
    }
}

/// What is quiet between two characters that undo each other is quiet with them.
proof fn lemma_quiet_between(
    st: ScanState,
    mid: ScanState,
    first: char,
    s: Seq<char>,
    last: char,
    open: char,
    close: char,
)
    requires
        step(st, first, open, close) == mid,
        mid.depth >= st.depth,
        quiet(mid, s, open, close),
        step(mid, last, open, close) == st,
    ensures
        quiet(st, seq![first] + s + seq![last], open, close),
{
    let all = seq![first] + s + seq![last];
    lemma_ran_one(st, first, open, close);
    lemma_ran_one(mid, last, open, close);
    lemma_ran_concat(st, seq![first], s, open, close);
    lemma_ran_concat(st, seq![first] + s, seq![last], open, close);
    assert forall|k: int| 0 <= k <= all.len() implies (#[trigger] ran(
        st,
        all.take(k),
        open,
        close,
    )).depth >= st.depth by {
        if k == 0 {
            assert(all.take(k) =~= Seq::<char>::empty());
        } else if k <= s.len() + 1 {
            assert(all.take(k) =~= seq![first] + s.take(k - 1));
            lemma_ran_concat(st, seq![first], s.take(k - 1), open, close);
            assert(ran(mid, s.take(k - 1), open, close).depth >= mid.depth);
        } else {
            assert(all.take(k) =~= all);
        }
    }
}

proof fn lemma_letters_are_quiet(st: ScanState, letters: Seq<Letter>, open: char, close: char)
    requires
        st.in_string,
        !st.escaped,
        forall|i: int|
            0 <= i < letters.len() ==> ((#[trigger] letters[i]) matches Letter::Plain(c) ==> c
                != '"' && c != '\\'),
    ensures
        quiet(st, letters_text(letters), open, close),
    decreases letters.len(),
{
    if letters.len() == 0 {
        assert forall|k: int| 0 <= k <= 0 implies (#[trigger] ran(
            st,
            letters_text(letters).take(k),
            open,
            close,
        )).depth >= st.depth by {
            assert(letters_text(letters).take(k) =~= Seq::<char>::empty());
        }
    } else {
        let front = letters.drop_last();
        assert forall|i: int| 0 <= i < front.len() implies ((#[trigger] front[i])
            matches Letter::Plain(c) ==> c != '"' && c != '\\') by {
            assert(front[i] == letters[i]);
        }
        lemma_letters_are_quiet(st, front, open, close);
        let letter = letters[letters.len() - 1];
        match letter {
            Letter::Plain(c) => {
                lemma_quiet_one(st, c, open, close);
                lemma_quiet_concat(st, letters_text(front), seq![c], open, close);
            },
            Letter::Escape(c) => {
                let mid = ScanState { escaped: true, ..st };
                let none = Seq::<char>::empty();
                assert(quiet(mid, none, open, close)) by {
                    assert forall|k: int| 0 <= k <= 0 implies (#[trigger] ran(
                        mid,
                        none.take(k),
                        open,
                        close,
                    )).depth >= mid.depth by {
                        assert(none.take(k) =~= none);
                    }
                }
                lemma_quiet_between(st, mid, '\\', none, c, open, close);
                assert(seq!['\\'] + none + seq![c] =~= seq!['\\', c]);
                lemma_quiet_concat(st, letters_text(front), seq!['\\', c], open, close);
            },
        }
    }
}

proof fn lemma_piece_is_quiet(st: ScanState, piece: Piece, open: char, close: char)
    requires
        !st.in_string,
        !st.escaped,
        proper(piece, open, close),
        open != close,
        open != '"',
        close != '"',
        open != '\\',
        close != '\\',
    ensures
        quiet(st, piece_text(piece, open, close), open, close),
    decreases piece,
{
    match piece {
        Piece::Plain(c) => {
            lemma_quiet_one(st, c, open, close);
        },
        Piece::Quoted(letters) => {
            let mid = ScanState { in_string: true, ..st };
            lemma_letters_are_quiet(mid, letters, open, close);
            lemma_quiet_between(st, mid, '"', letters_text(letters), '"', open, close);
        },
        Piece::Nested(pieces) => {
            let mid = ScanState { depth: st.depth + 1, ..st };
            lemma_pieces_are_quiet(mid, pieces, open, close);
            let inner = pieces_text(pieces, open, close);
            lemma_quiet_between(st, mid, open, inner, close, open, close);
        },
    }
}

proof fn lemma_pieces_are_quiet(st: ScanState, pieces: Seq<Piece>, open: char, close: char)
    requires
        !st.in_string,
        !st.escaped,
        all_proper(pieces, open, close),
        open != close,
        open != '"',
        close != '"',
        open != '\\',
        close != '\\',
    ensures
        quiet(st, pieces_text(pieces, open, close), open, close),
    decreases pieces,
{
    if pieces.len() == 0 {
        assert forall|k: int| 0 <= k <= 0 implies (#[trigger] ran(
            st,
            pieces_text(pieces, open, close).take(k),
            open,
            close,
        )).depth >= st.depth by {
            assert(pieces_text(pieces, open, close).take(k) =~= Seq::<char>::empty());
        }
    } else {
        let front = pieces.drop_last();
        assert forall|i: int| 0 <= i < front.len() implies proper(
            #[trigger] front[i],
            open,
            close,
        ) by {
            assert(front[i] == pieces[i]);
        }
        lemma_pieces_are_quiet(st, front, open, close);
        let last = pieces[pieces.len() - 1];
        lemma_piece_is_quiet(st, last, open, close);
        lemma_quiet_concat(
            st,
            pieces_text(front, open, close),
            piece_text(last, open, close),
            open,
            close,
        );
    }
}

/// An opening delimiter and pieces behind it leave it open at every point.
proof fn lemma_open_over_pieces(pieces: Seq<Piece>, open: char, close: char, k: int)
    requires
        all_proper(pieces, open, close),
        open != close,
        open != '"',
        close != '"',
        open != '\\',
        close != '\\',
        1 <= k <= 1 + pieces_text(pieces, open, close).len(),
    ensures
        ({
            let st = scanned(
                (seq![open] + pieces_text(pieces, open, close)).take(k),
                open,
                close,
            );
            &&& st.depth >= 1
            &&& k == 1 + pieces_text(pieces, open, close).len() ==> st == (ScanState {
                depth: 1,
                in_string: false,
                escaped: false,
            })
        }),
{
    let start = ScanState { depth: 0, in_string: false, escaped: false };
    let mid = ScanState { depth: 1, in_string: false, escaped: false };
    let inner = pieces_text(pieces, open, close);
    let s = seq![open] + inner;
    lemma_pieces_are_quiet(mid, pieces, open, close);
    lemma_ran_one(start, open, open, close);
    assert(s.take(k) =~= seq![open] + inner.take(k - 1));
    lemma_scanned_is_ran(s.take(k), open, close);
    lemma_ran_concat(start, seq![open], inner.take(k - 1), open, close);
    assert(ran(mid, inner.take(k - 1), open, close).depth >= 1);
    if k == 1 + inner.len() {
        assert(inner.take(k - 1) =~= inner);
    }
}

/// Pieces between two delimiters are closed by the second and no earlier.
proof fn lemma_enclosed_is_balanced(pieces: Seq<Piece>, open: char, close: char)
    requires
        all_proper(pieces, open, close),
        open != close,
        open != '"',
        close != '"',
        open != '\\',
        close != '\\',
    ensures
        balanced_front(enclosed(pieces, open, close), open, close) == Some(
            enclosed(pieces, open, close),
        ),
        balanced_front(seq![open] + pieces_text(pieces, open, close), open, close) is None,
{
    let inner = pieces_text(pieces, open, close);
    let part = seq![open] + inner;
    let s = enclosed(pieces, open, close);
    let n = s.len() as int;
    assert forall|j: int| 1 <= j < n implies !closes_at(s, open, close, j) && !closes_at(
        part,
        open,
        close,
        j,
    ) by {
        assert(s.take(j) =~= part.take(j));
        lemma_open_over_pieces(pieces, open, close, j);
    }
    lemma_open_over_pieces(pieces, open, close, n - 1);
    assert(s.take(n - 1) =~= part.take(n - 1));
    lemma_scan_step(s, open, close, n - 1);
    assert(s[n - 1] == close);
    assert(closes_at(s, open, close, n));
    lemma_closing_len_is(s, open, close, n);
    assert(s.take(n) =~= s);
    lemma_closing_len(part, open, close, 1);
}

/// The first object of a text is what stands between its first `{` and the `}` that
/// belongs to it, whatever stands before and behind. Braces in string literals do not
/// count, nor do quotes behind a backslash there.
pub proof fn law_object_is_found_whole(before: Seq<char>, pieces: Seq<Piece>, after: Seq<char>)
    requires
        !before.contains('{'),
        all_proper(pieces, '{', '}'),
    ensures
        first_object(before + enclosed(pieces, '{', '}') + after) == Some(
            enclosed(pieces, '{', '}'),
        ),
{
    let object = enclosed(pieces, '{', '}');
    lemma_enclosed_is_balanced(pieces, '{', '}');
    assert(object[0] == '{');
    text::lemma_span_is(object, text::other_than('{'), 0);
    assert(object.skip(0) =~= object);
    assert(first_object(object) == Some(object));
    law_object_ignores_header(before, object);
    law_object_ignores_tail(before + object, after);
}

/// A text without a `{`, or whose first `{` is never closed, holds no object.
pub proof fn law_unclosed_object_is_none(before: Seq<char>, pieces: Seq<Piece>)
    requires
        !before.contains('{'),
        all_proper(pieces, '{', '}'),
    ensures
        first_object(before) is None,
        first_object(before + (seq!['{'] + pieces_text(pieces, '{', '}'))) is None,
{
    let part = seq!['{'] + pieces_text(pieces, '{', '}');
    lemma_enclosed_is_balanced(pieces, '{', '}');
    assert(part[0] == '{');
    text::lemma_span_is(part, text::other_than('{'), 0);
    assert(part.skip(0) =~= part);
    law_object_ignores_header(before, part);
    law_object_ignores_header(before, Seq::empty());
    assert(before + Seq::<char>::empty() =~= before);
    assert(Seq::<char>::empty().skip(0) =~= Seq::<char>::empty());
}

/// A string literal that never ends hides whatever would close the object.
pub proof fn law_unended_string_hides_the_end(
    before: Seq<char>,
    pieces: Seq<Piece>,
    letters: Seq<Letter>,
)
    requires
        !before.contains('{'),
        all_proper(pieces, '{', '}'),
        proper(Piece::Quoted(letters), '{', '}'),
    ensures
        first_object(
            before + (seq!['{'] + pieces_text(pieces, '{', '}') + (seq!['"'] + letters_text(
                letters,
            ))),
        ) is None,
{
    let start = ScanState { depth: 0, in_string: false, escaped: false };
    let open = ScanState { depth: 1, in_string: false, escaped: false };
    let quoted = ScanState { depth: 1, in_string: true, escaped: false };
    let inner = seq!['{'] + pieces_text(pieces, '{', '}');
    let string = seq!['"'] + letters_text(letters);
    let part = inner + string;
    let n = inner.len() as int;
    assert forall|j: int| 1 <= j <= part.len() implies !closes_at(part, '{', '}', j) by {
        if j <= n {
            assert(part.take(j) =~= inner.take(j));
            lemma_open_over_pieces(pieces, '{', '}', j);
        } else {
            lemma_open_over_pieces(pieces, '{', '}', n);
            assert(inner.take(n) =~= inner);
            lemma_scanned_is_ran(inner, '{', '}');
            lemma_scanned_is_ran(part.take(j), '{', '}');
            let done = letters_text(letters).take(j - n - 1);
            assert(part.take(j) =~= inner + (seq!['"'] + done));
            lemma_ran_concat(start, inner, seq!['"'] + done, '{', '}');
            lemma_ran_concat(open, seq!['"'], done, '{', '}');
            lemma_ran_one(open, '"', '{', '}');
            lemma_letters_are_quiet(quoted, letters, '{', '}');
            assert(ran(quoted, done, '{', '}').depth >= 1);
        }
    }
    lemma_closing_len(part, '{', '}', 1);
    assert(part[0] == '{');
    text::lemma_span_is(part, text::other_than('{'), 0);
    assert(part.skip(0) =~= part);
    law_object_ignores_header(before, part);
}

/// A bracket at the very front of a text without a `]` opens an array that is never
/// closed.
pub proof fn law_lone_bracket_is_no_value(s: Seq<char>)
    requires
        s.len() > 0,
        s[0] == '[',
        !s.contains(']'),
    ensures
        first_value(s) is None,
{
    text::law_first_char_parts_the_text(s, ']', Seq::empty());
    text::lemma_span_bounds(s, text::other_than(']'));
    assert(text::char_pos(s, ']') == s.len());
    assert(s.skip(0) =~= s);
    text::lemma_span_is(s, |c: char| !opener(c), 0);
    lemma_closing_len(s, '[', ']', 1);
    match closing_len(s, '[', ']', 1) {
        Some(n) => {
            assert(s.contains(s[n - 1]));
        },
        None => {},
    }
}

/// The first object or array of a text is what stands between its first `{` or `[` and
/// the delimiter that belongs to it, whatever stands before and behind. A bracketed
/// header at the very front of the text is passed over.
pub proof fn law_value_is_found_whole(
    header: Seq<char>,
    before: Seq<char>,
    pieces: Seq<Piece>,
    after: Seq<char>,
    array: bool,
)
    requires
        header.len() == 0 || (header.len() >= 2 && header.first() == '[' && header.last() == ']'
            && !header.drop_last().contains(']')),
        forall|i: int| 0 <= i < before.len() ==> before[i] != '{' && before[i] != '[',
        header.len() > 0 || before.len() > 0 || !array,
        array ==> all_proper(pieces, '[', ']'),
        !array ==> all_proper(pieces, '{', '}'),
    ensures
        ({
            let value = if array {
                enclosed(pieces, '[', ']')
            } else {
                enclosed(pieces, '{', '}')
            };
            first_value(header + before + value + after) == Some(value)
        }),
{
    let (open, close) = if array {
        ('[', ']')
    } else {
        ('{', '}')
    };
    let value = enclosed(pieces, open, close);
    let region = before + value + after;
    let s = header + before + value + after;
    assert(s =~= header + region);
    if header.len() > 0 {
        law_header_is_no_array(header, region);
    } else {
        assert(s[0] != '[') by {
            if before.len() > 0 {
                assert(s[0] == before[0]);
            } else {
                assert(s[0] == value[0]);
            }
        }
    }
    assert(s.skip(search_start(s)) =~= region);
    let shut = |c: char| !opener(c);
    let n = before.len() as int;
    assert forall|i: int| 0 <= i < n implies shut(#[trigger] region[i]) by {
        assert(region[i] == before[i]);
    }
    assert(region[n] == value[0]);
    text::lemma_span_is(region, shut, n);
    let rest = region.skip(n);
    assert(rest =~= value + after);
    assert(rest[0] == open);
    lemma_enclosed_is_balanced(pieces, open, close);
    lemma_balanced_front_ignores_tail(value, after, open, close);
}

/// A text without a `{` or `[` behind its bracketed header holds no value.
pub proof fn law_no_delimiter_no_value(header: Seq<char>, rest: Seq<char>)
    requires
        header.len() == 0 || (header.len() >= 2 && header.first() == '[' && header.last() == ']'
            && !header.drop_last().contains(']')),
        forall|i: int| 0 <= i < rest.len() ==> rest[i] != '{' && rest[i] != '[',
    ensures
        first_value(header + rest) is None,
{
    let s = header + rest;
    if header.len() > 0 {
        law_header_is_no_array(header, rest);
    } else {
        assert(s =~= rest);
    }
    assert(s.skip(search_start(s)) =~= rest);
    text::lemma_span_is(rest, |c: char| !opener(c), rest.len() as int);
}

// ---------------------------------------------------------------------------
// Scanning
// ---------------------------------------------------------------------------

/// The end of what opens at `start`: the position behind the delimiter that
/// closes it.
fn closing_end(chars: &Vec<char>, start: usize, open: char, close: char) -> (end: Option<usize>)
    requires
        start < chars@.len(),
        chars@[start as int] == open,
        open != close,
        open != '"',
        open != '\\',
        close != '"',
        close != '\\',
    ensures
        match end {
            Some(e) => start < e <= chars@.len() && closing_len(
                chars@.skip(start as int),
                open,
                close,
                1,
            ) == Some(e - start),
            None => closing_len(chars@.skip(start as int), open, close, 1) is None,
        },
{
    let ghost rest = chars@.skip(start as int);
    let mut depth: usize = 0;
    let mut in_string = false;
    let mut escaped = false;
    let mut i: usize = start;
    assert(rest.take(0) =~= Seq::<char>::empty());
    while i < chars.len()
        invariant
            start <= i <= chars@.len(),
            start < chars@.len(),
            rest == chars@.skip(start as int),
            rest[0] == open,
            open != close,
            open != '"',
            open != '\\',
            close != '"',
            close != '\\',
            scanned(rest.take(i - start), open, close) == (ScanState {
                depth: depth as int,
                in_string,
                escaped,
            }),
            depth <= i - start,
            forall|j: int| 1 <= j <= i - start ==> !closes_at(rest, open, close, j),
        decreases chars@.len() - i,
    {
        let c = chars[i];
        proof {
            lemma_scan_step(rest, open, close, i - start);
            assert(c == rest[i - start]);
            if i > start {
                lemma_open_until_closed(rest, open, close, i - start);
            }
        }
        if escaped {
            escaped = false;
        } else if c == '\\' && in_string {
            escaped = true;
        } else if c == '"' {
            in_string = !in_string;
        } else if c == open && !in_string {
            depth += 1;
        } else if c == close && !in_string {
            depth -= 1;
            if depth == 0 {
                proof {
                    lemma_closing_len_is(rest, open, close, i - start + 1);
                }
                return Some(i + 1);
            }
        }
        i += 1;
    }
    proof {
        lemma_closing_len(rest, open, close, 1);
    }
    None
}

/// The first JSON object of a text.
///
/// Scans for the first `{` and finds the `}` that closes it, passing over
/// braces in string literals.
pub fn find_object(s: &str) -> (found: Option<&str>)
    ensures
        match found {
            Some(t) => first_object(s@) == Some(t@),
            None => first_object(s@) is None,
        },
{
    let chars = chars_of(s);
    let mut p: usize = 0;
    while p < chars.len() && chars[p] != '{'
        invariant
            p <= chars@.len(),
            forall|j: int| 0 <= j < p ==> chars@[j] != '{',
        decreases chars@.len() - p,
    {
        p += 1;
    }
    proof {
        text::lemma_span_is(chars@, text::other_than('{'), p as int);
    }
    if p == chars.len() {
        return None;
    }
    match closing_end(&chars, p, '{', '}') {
        Some(end) => {
            let t = s.substring_char(p, end);
            assert(t@ =~= s@.skip(p as int).take(end - p));
            Some(t)
        },
        None => None,
    }
}

/// The first JSON object or array of a text, behind its bracketed header.
pub fn find_value(s: &str) -> (found: Option<&str>)
    ensures
        match found {
            Some(t) => first_value(s@) == Some(t@),
            None => first_value(s@) is None,
        },
{
    let chars = chars_of(s);
    let mut start: usize = 0;
    if chars.len() > 0 && chars[0] == '[' {
        let mut p: usize = 0;
        while p < chars.len() && chars[p] != ']'
            invariant
                p <= chars@.len(),
                forall|j: int| 0 <= j < p ==> chars@[j] != ']',
            decreases chars@.len() - p,
        {
            p += 1;
        }
        proof {
            text::lemma_span_is(chars@, text::other_than(']'), p as int);
        }
        if p < chars.len() {
            start = p + 1;
        }
    }
    let ghost region = s@.skip(start as int);
    let mut p: usize = start;
    while p < chars.len() && chars[p] != '{' && chars[p] != '['
        invariant
            start <= p <= chars@.len(),
            chars@ == s@,
            region == s@.skip(start as int),
            forall|j: int| 0 <= j < p - start ==> !opener(#[trigger] region[j]),
        decreases chars@.len() - p,
    {
        assert(region[p - start] == chars@[p as int]);
        p += 1;
    }
    proof {
        if p < chars@.len() {
            assert(region[p - start] == chars@[p as int]);
        }
        text::lemma_span_is(region, |c: char| !opener(c), p - start);
        assert(region.skip(p - start) =~= s@.skip(p as int));
    }
    if p == chars.len() {
        return None;
    }
    let end = if chars[p] == '{' {
        closing_end(&chars, p, '{', '}')
    } else {
        closing_end(&chars, p, '[', ']')
    };
    match end {
        Some(e) => {
            let t = s.substring_char(p, e);
            assert(t@ =~= s@.skip(p as int).take(e - p));
            Some(t)
        },
        None => None,
    }
}

} // verus!
