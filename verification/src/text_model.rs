//! The mathematical model of a text: a sequence of UTF-8 bytes split into
//! lines by the line breaks LF, CR and CRLF (a CRLF pair is a single break).
//!
//! A line break belongs to the line it ends, the start of the text and every
//! position just after a break start a line, so a text that ends in a break
//! has a final empty line.
use vstd::prelude::*;
use vstd::utf8::*;

verus! {

pub open spec fn is_lf(b: u8) -> bool {
    b == 10u8
}

pub open spec fn is_cr(b: u8) -> bool {
    b == 13u8
}

/// Byte `j` of `t` is the last byte of a line break.
pub open spec fn is_break_end(t: Seq<u8>, j: int) -> bool {
    &&& 0 <= j < t.len()
    &&& (is_lf(t[j]) || (is_cr(t[j]) && (j + 1 == t.len() || !is_lf(t[j + 1]))))
}

/// Number of line breaks that end before position `i`.
pub open spec fn breaks_before(t: Seq<u8>, i: int) -> nat
    decreases i,
{
    if i <= 0 {
        0
    } else {
        breaks_before(t, i - 1) + (if is_break_end(t, i - 1) {
            1nat
        } else {
            0nat
        })
    }
}

/// Number of lines of `t` (a text without breaks has one line).
pub open spec fn line_count(t: Seq<u8>) -> nat {
    breaks_before(t, t.len() as int) + 1
}

/// The first line start strictly after `p`, or the end of the text.
pub open spec fn next_line_start(t: Seq<u8>, p: int) -> int
    decreases t.len() - p,
{
    if p >= t.len() {
        t.len() as int
    } else if is_break_end(t, p) {
        p + 1
    } else {
        next_line_start(t, p + 1)
    }
}

/// Byte index at which line `l` starts; for `l == line_count(t)` this is
/// the length of the text.
pub open spec fn line_start(t: Seq<u8>, l: nat) -> int
    decreases l,
{
    if l == 0 {
        0
    } else {
        next_line_start(t, line_start(t, (l - 1) as nat))
    }
}

/// Length in bytes of line `l`, its line break included.
pub open spec fn line_len(t: Seq<u8>, l: nat) -> int {
    line_start(t, l + 1) - line_start(t, l)
}

/// `i` is a valid position to split `t` at: not inside a multi-byte character.
pub open spec fn char_boundary(t: Seq<u8>, i: int) -> bool {
    &&& 0 <= i <= t.len()
    &&& (i == t.len() || !is_continuation_byte(t[i]))
}

/// `s` with its trailing CR and LF bytes removed.
pub open spec fn strip_trailing_breaks(s: Seq<u8>) -> Seq<u8>
    decreases s.len(),
{
    if s.len() > 0 && (is_lf(s.last()) || is_cr(s.last())) {
        strip_trailing_breaks(s.drop_last())
    } else {
        s
    }
}

/// The text of line `l` without its line break.
pub open spec fn line_content(t: Seq<u8>, l: nat) -> Seq<u8> {
    strip_trailing_breaks(t.subrange(line_start(t, l), line_start(t, l + 1)))
}

/// `t` with `s` inserted at byte `i`.
pub open spec fn splice_insert(t: Seq<u8>, i: int, s: Seq<u8>) -> Seq<u8> {
    t.subrange(0, i) + s + t.subrange(i, t.len() as int)
}

/// `t` with bytes `[start, end)` removed.
pub open spec fn splice_remove(t: Seq<u8>, start: int, end: int) -> Seq<u8> {
    t.subrange(0, start) + t.subrange(end, t.len() as int)
}

// ---------------------------------------------------------------------------
// Lemmas on line breaks
pub proof fn lemma_breaks_before_mono(t: Seq<u8>, a: int, b: int)
    requires
        a <= b,
    ensures
        breaks_before(t, a) <= breaks_before(t, b),
    decreases b - a,
{
    if a < b {
        lemma_breaks_before_mono(t, a, b - 1);
    }
}

/// A break ending in `[a, b)` makes the count grow.
pub proof fn lemma_breaks_before_strict(t: Seq<u8>, a: int, j: int, b: int)
    requires
        a <= j < b,
        is_break_end(t, j),
    ensures
        breaks_before(t, a) < breaks_before(t, b),
{
    lemma_breaks_before_mono(t, a, j);
    lemma_breaks_before_mono(t, j + 1, b);
}

/// Without a break in `[a, b)` the count does not change.
pub proof fn lemma_breaks_before_flat(t: Seq<u8>, a: int, b: int)
    requires
        a <= b,
        forall|j: int| a <= j < b ==> !is_break_end(t, j),
    ensures
        breaks_before(t, a) == breaks_before(t, b),
    decreases b - a,
{
    if a < b {
        lemma_breaks_before_flat(t, a, b - 1);
    }
}

/// Beyond the end of the text the count does not grow.
pub proof fn lemma_breaks_before_past_end(t: Seq<u8>, i: int)
    requires
        i >= t.len(),
    ensures
        breaks_before(t, i) == breaks_before(t, t.len() as int),
    decreases i - t.len(),
{
    if i > t.len() {
        lemma_breaks_before_past_end(t, i - 1);
    }
}

pub proof fn lemma_next_line_start(t: Seq<u8>, p: int)
    requires
        0 <= p <= t.len(),
    ensures
        p == t.len() ==> next_line_start(t, p) == p,
        p < t.len() ==> p < next_line_start(t, p) <= t.len(),
        forall|j: int| p <= j < next_line_start(t, p) - 1 ==> !is_break_end(t, j),
        p < t.len() ==> (is_break_end(t, next_line_start(t, p) - 1) || next_line_start(t, p)
            == t.len()),
        p < t.len() && !is_break_end(t, next_line_start(t, p) - 1) ==> forall|j: int|
            p <= j < t.len() ==> !is_break_end(t, j),
    decreases t.len() - p,
{
    if p < t.len() && !is_break_end(t, p) {
        lemma_next_line_start(t, p + 1);
    }
}

/// The facts about the start of each line.
pub proof fn lemma_line_start(t: Seq<u8>, l: nat)
    requires
        l < line_count(t),
    ensures
        0 <= line_start(t, l) <= t.len(),
        breaks_before(t, line_start(t, l)) == l,
        l > 0 ==> is_break_end(t, line_start(t, l) - 1),
        line_start(t, l) < line_start(t, l + 1) <= t.len() || (line_start(t, l) == line_start(
            t,
            l + 1,
        ) && line_start(t, l) == t.len()),
        l + 1 < line_count(t) ==> is_break_end(t, line_start(t, l + 1) - 1) && line_start(t, l)
            < line_start(t, l + 1),
        l + 1 == line_count(t) ==> line_start(t, l + 1) == t.len(),
        forall|j: int| line_start(t, l) <= j < line_start(t, l + 1) - 1 ==> !is_break_end(t, j),
    decreases l,
{
    let n = t.len() as int;
    if l > 0 {
        let k = (l - 1) as nat;
        lemma_line_start(t, k);
        let a = line_start(t, k);
        let b = line_start(t, l);
        lemma_breaks_before_flat(t, a, b - 1);
    }
    let p = line_start(t, l);
    assert(0 <= p <= n && breaks_before(t, p) == l);
    lemma_next_line_start(t, p);
    let q = next_line_start(t, p);
    assert(line_start(t, l + 1) == q);
    if l + 1 < line_count(t) {
        // a break exists in [p, n)
        if p == n {
            assert(false);
        }
        if !is_break_end(t, q - 1) {
            lemma_breaks_before_flat(t, p, n);
            assert(false);
        }
    } else {
        if p < n && is_break_end(t, q - 1) {
            lemma_breaks_before_strict(t, p, q - 1, n);
            assert(false);
        }
    }
}

/// Line starts grow with the line index.
pub proof fn lemma_line_start_mono(t: Seq<u8>, a: nat, b: nat)
    requires
        a <= b <= line_count(t),
    ensures
        line_start(t, a) <= line_start(t, b),
        b < line_count(t) && a < b ==> line_start(t, a) < line_start(t, b),
    decreases b - a,
{
    if a < b {
        lemma_line_start_mono(t, a, (b - 1) as nat);
        lemma_line_start(t, (b - 1) as nat);
    }
}

/// The line that holds byte `p` is the number of breaks before it.
pub proof fn lemma_line_of_byte(t: Seq<u8>, p: int)
    requires
        0 <= p <= t.len(),
    ensures
        breaks_before(t, p) < line_count(t),
        line_start(t, breaks_before(t, p)) <= p,
        p < line_start(t, breaks_before(t, p) + 1) || (breaks_before(t, p) + 1 == line_count(t)
            && p <= t.len()),
{
    lemma_breaks_before_mono(t, p, t.len() as int);
    let l = breaks_before(t, p);
    lemma_line_start(t, l);
    let a = line_start(t, l);
    let b = line_start(t, l + 1);
    if a > p {
        // breaks_before(a) == l but p < a: the break ending at a - 1 lies in [p, a)
        if l == 0 {
        } else {
            lemma_breaks_before_strict(t, p, a - 1, a);
        }
    }
    if l + 1 < line_count(t) && p >= b {
        lemma_line_start(t, l + 1);
        lemma_breaks_before_strict(t, b - 1, b - 1, p + 1);
        lemma_breaks_before_mono(t, b, p);
    }
}

// ---------------------------------------------------------------------------
// Lemmas on UTF-8
/// In valid UTF-8, the byte after an ASCII byte starts a character.
pub proof fn lemma_after_ascii_is_boundary(t: Seq<u8>, j: int)
    requires
        valid_utf8(t),
        0 <= j < t.len(),
        t[j] < 0x80u8,
    ensures
        char_boundary(t, j + 1),
{
    if j + 1 < t.len() {
        is_char_boundary_iff_not_is_continuation_byte(t, j);
        valid_utf8_split(t, j);
        let s = t.subrange(j, t.len() as int);
        assert(s[0] == t[j]);
        assert(valid_utf8(s));
        let r = pop_first_scalar(s);
        assert(r =~= t.subrange(j + 1, t.len() as int));
        assert(valid_utf8(r));
        assert(r[0] == t[j + 1]);
    }
}

/// Line starts are character boundaries.
pub proof fn lemma_line_start_boundary(t: Seq<u8>, l: nat)
    requires
        valid_utf8(t),
        l <= line_count(t),
    ensures
        char_boundary(t, line_start(t, l)),
{
    if l == line_count(t) {
        if l > 0 {
            lemma_line_start(t, (l - 1) as nat);
        }
        if l == 0 {
        }
    } else {
        lemma_line_start(t, l);
        if l > 0 {
            let p = line_start(t, l);
            lemma_after_ascii_is_boundary(t, p - 1);
        } else {
            if t.len() > 0 {
                is_char_boundary_start_end_of_seq(t);
                is_char_boundary_iff_not_is_continuation_byte(t, 0);
            }
        }
    }
}

/// The UTF-8 encoding of a single character.
pub open spec fn char_bytes(c: char) -> Seq<u8> {
    encode_utf8(seq![c])
}

/// Inserting valid UTF-8 at a boundary of valid UTF-8 keeps it valid.
pub proof fn lemma_insert_valid(t: Seq<u8>, i: int, s: Seq<u8>)
    requires
        valid_utf8(t),
        valid_utf8(s),
        char_boundary(t, i),
    ensures
        valid_utf8(splice_insert(t, i, s)),
{
    lemma_boundary_is_char_boundary(t, i);
    valid_utf8_split(t, i);
    valid_utf8_concat(t.subrange(0, i), s);
    valid_utf8_concat(t.subrange(0, i) + s, t.subrange(i, t.len() as int));
}

/// Removing a range between two boundaries of valid UTF-8 keeps it valid.
pub proof fn lemma_remove_valid(t: Seq<u8>, a: int, b: int)
    requires
        valid_utf8(t),
        a <= b,
        char_boundary(t, a),
        char_boundary(t, b),
    ensures
        valid_utf8(splice_remove(t, a, b)),
{
    lemma_boundary_is_char_boundary(t, a);
    lemma_boundary_is_char_boundary(t, b);
    valid_utf8_split(t, a);
    valid_utf8_split(t, b);
    valid_utf8_concat(t.subrange(0, a), t.subrange(b, t.len() as int));
}

/// The simple boundary test agrees with the one of the UTF-8 library.
pub proof fn lemma_boundary_is_char_boundary(t: Seq<u8>, i: int)
    requires
        valid_utf8(t),
        char_boundary(t, i),
    ensures
        is_char_boundary(t, i),
{
    is_char_boundary_start_end_of_seq(t);
    if i < t.len() {
        is_char_boundary_iff_not_is_continuation_byte(t, i);
    }
}

/// The encoding of a concatenation is the concatenation of the encodings.
pub proof fn lemma_encode_concat(a: Seq<char>, b: Seq<char>)
    ensures
        encode_utf8(a + b) == encode_utf8(a) + encode_utf8(b),
    decreases a.len(),
{
    if a.len() == 0 {
        assert(a + b =~= b);
        assert(encode_utf8(a) =~= Seq::<u8>::empty());
        assert(encode_utf8(a) + encode_utf8(b) =~= encode_utf8(b));
    } else {
        lemma_encode_concat(a.drop_first(), b);
        assert((a + b).drop_first() =~= a.drop_first() + b);
        assert((a + b)[0] == a[0]);
        assert(encode_utf8(a + b) =~= encode_utf8(a) + encode_utf8(b));
    }
}

/// ASCII characters encode to one byte each, equal to their code.
pub proof fn lemma_encode_ascii(s: Seq<char>)
    requires
        is_ascii_chars(s),
    ensures
        encode_utf8(s).len() == s.len(),
        forall|i: int| 0 <= i < s.len() ==> encode_utf8(s)[i] == s[i] as u8,
{
    is_ascii_chars_encode_utf8(s);
}

} // verus!
