//! Styled spans of a screen line: the pieces of highlighted text that the
//! view clips to the visible columns and paints with the cursor-line and
//! selection backgrounds.
use vstd::prelude::*;
use vstd::utf8::encode_utf8;
use crate::config::Color;
use crate::text_model::{char_boundary, lemma_boundary_is_char_boundary};

verus! {

/// How a span of text is drawn.
#[derive(Debug, Clone, Copy, PartialEq, Eq, Structural)]
pub struct SpanStyle {
    pub fg: Option<Color>,
    pub bg: Option<Color>,
    pub bold: bool,
    pub italic: bool,
    pub underlined: bool,
}

/// Spans as styles and the bytes of their text.
pub open spec fn spans_view(v: Seq<(SpanStyle, String)>) -> Seq<(SpanStyle, Seq<u8>)> {
    Seq::new(v.len(), |j: int| (v[j].0, encode_utf8(v[j].1@)))
}

/// Total byte length of the spans' texts.
pub open spec fn total_len(s: Seq<(SpanStyle, Seq<u8>)>) -> nat
    decreases s.len(),
{
    if s.len() == 0 {
        0
    } else {
        total_len(s.drop_last()) + s.last().1.len()
    }
}

/// `st` with the background `bg`.
pub open spec fn with_bg(st: SpanStyle, bg: Color) -> SpanStyle {
    SpanStyle { bg: Some(bg), ..st }
}

// ── clipping to the visible columns ──────────────────────────────────

/// Where the visible window `[start, end)` cuts the span `t` that starts at
/// byte `off` of the line: how much is cut at its front and at its back.
pub open spec fn clip_cuts(off: int, t: Seq<u8>, start: int, end: int) -> (int, int) {
    let e = off + t.len();
    (
        if off < start {
            start - off
        } else {
            0
        },
        if e > end {
            e - end
        } else {
            0
        },
    )
}

/// The span `t` at byte `off` overlaps the window `[start, end)`.
pub open spec fn overlaps(off: int, t: Seq<u8>, start: int, end: int) -> bool {
    off + t.len() > start && off < end
}

/// The parts of the spans `s` inside the visible byte window `[start,
/// end)`, each with its style.
pub open spec fn clip_view(s: Seq<(SpanStyle, Seq<u8>)>, start: int, end: int) -> Seq<
    (SpanStyle, Seq<u8>),
>
    decreases s.len(),
{
    if s.len() == 0 {
        Seq::empty()
    } else {
        let prev = clip_view(s.drop_last(), start, end);
        let off = total_len(s.drop_last()) as int;
        let (st, t) = s.last();
        if overlaps(off, t, start, end) {
            let (lo, hi) = clip_cuts(off, t, start, end);
            prev.push((st, t.subrange(lo, t.len() - hi)))
        } else {
            prev
        }
    }
}

/// The window cuts every span it overlaps on character boundaries.
pub open spec fn clip_ok(s: Seq<(SpanStyle, Seq<u8>)>, start: int, end: int) -> bool {
    forall|k: int|
        0 <= k < s.len() ==> {
            let off = #[trigger] total_len(s.take(k)) as int;
            let t = s[k].1;
            let (lo, hi) = clip_cuts(off, t, start, end);
            overlaps(off, t, start, end) ==> char_boundary(t, lo) && char_boundary(t, t.len() - hi)
        }
}

/// The window of the view: `vis_cols` columns from `scroll_col`, up to the
/// largest `usize`.
pub open spec fn window_end(scroll_col: usize, vis_cols: usize) -> int {
    if scroll_col + vis_cols > usize::MAX {
        usize::MAX as int
    } else {
        scroll_col + vis_cols
    }
}

/// `s[a..b]` by bytes, where both ends are character boundaries.
fn byte_slice(s: &str, a: usize, b: usize) -> (r: String)
    requires
        a <= b,
        char_boundary(encode_utf8(s@), a as int),
        char_boundary(encode_utf8(s@), b as int),
    ensures
        encode_utf8(r@) == encode_utf8(s@).subrange(a as int, b as int),
{
    let ghost t = encode_utf8(s@);
    proof {
        vstd::utf8::encode_utf8_valid_utf8(s@);
        lemma_boundary_is_char_boundary(t, a as int);
    }
    let (_, tail) = s.split_at(a);
    let ghost u = encode_utf8(tail@);
    proof {
        assert(u =~= t.subrange(a as int, t.len() as int));
        vstd::utf8::encode_utf8_valid_utf8(tail@);
        assert(char_boundary(u, b - a));
        lemma_boundary_is_char_boundary(u, b - a);
    }
    let (mid, _) = tail.split_at(b - a);
    assert(encode_utf8(mid@) =~= t.subrange(a as int, b as int));
    String::from_str(mid)
}

proof fn lemma_total_len_take(s: Seq<(SpanStyle, Seq<u8>)>, k: int)
    requires
        0 <= k < s.len(),
    ensures
        total_len(s.take(k + 1)) == total_len(s.take(k)) + s[k].1.len(),
{
    assert(s.take(k + 1).drop_last() =~= s.take(k));
}

/// Keep only the parts of the spans that fall within the visible columns
/// `[scroll_col, scroll_col + vis_cols)` (bytes of the line).
pub fn clip_spans_horiz(spans: &Vec<(SpanStyle, String)>, scroll_col: usize, vis_cols: usize) -> (r:
    Vec<(SpanStyle, String)>)
    requires
        total_len(spans_view(spans@)) <= usize::MAX,
        clip_ok(spans_view(spans@), scroll_col as int, window_end(scroll_col, vis_cols)),
    ensures
        spans_view(r@) == clip_view(spans_view(spans@), scroll_col as int, window_end(scroll_col, vis_cols)),
{
    let ghost sv = spans_view(spans@);
    let end = scroll_col.saturating_add(vis_cols);
    let mut result: Vec<(SpanStyle, String)> = Vec::new();
    let mut offset: usize = 0;
    let n = spans.len();
    let mut i: usize = 0;
    assert(sv.take(0) =~= Seq::<(SpanStyle, Seq<u8>)>::empty());
    while i < n
        invariant
            i <= n == spans@.len() == sv.len(),
            sv == spans_view(spans@),
            end == window_end(scroll_col, vis_cols),
            total_len(sv) <= usize::MAX,
            clip_ok(sv, scroll_col as int, end as int),
            offset == total_len(sv.take(i as int)),
            spans_view(result@) == clip_view(sv.take(i as int), scroll_col as int, end as int),
        decreases n - i,
    {
        let style = spans[i].0;
        let text = spans[i].1.as_str();
        let len = text.as_bytes().len();
        proof {
            lemma_total_len_take(sv, i as int);
            lemma_total_len_prefix(sv, i + 1);
            assert(sv.take(i + 1).drop_last() =~= sv.take(i as int));
            assert(sv.take(i + 1).last() == sv[i as int]);
        }
        let span_start = offset;
        let span_end = offset + len;
        // Does this span overlap the visible window?
        if span_end > scroll_col && span_start < end {
            let lo = if span_start < scroll_col {
                scroll_col - span_start
            } else {
                0
            };
            let hi = if span_end > end {
                span_end - end
            } else {
                0
            };
            proof {
                assert(total_len(sv.take(i as int)) == offset);
            }
            let clipped = byte_slice(text, lo, len - hi);
            result.push((style, clipped));
            assert(spans_view(result@) =~= clip_view(sv.take(i + 1), scroll_col as int, end as int));
        } else {
            assert(spans_view(result@) =~= clip_view(sv.take(i + 1), scroll_col as int, end as int));
        }
        offset = span_end;
        i += 1;
    }
    assert(sv.take(n as int) =~= sv);
    result
}

proof fn lemma_total_len_prefix(s: Seq<(SpanStyle, Seq<u8>)>, k: int)
    requires
        0 <= k <= s.len(),
    ensures
        total_len(s.take(k)) <= total_len(s),
    decreases s.len() - k,
{
    if k < s.len() {
        lemma_total_len_prefix(s, k + 1);
        lemma_total_len_take(s, k);
    } else {
        assert(s.take(k) =~= s);
    }
}

// ── backgrounds ───────────────────────────────────────────────────────

/// The spans with the background `bg`.
pub open spec fn bg_view(s: Seq<(SpanStyle, Seq<u8>)>, bg: Color) -> Seq<(SpanStyle, Seq<u8>)> {
    Seq::new(s.len(), |j: int| (with_bg(s[j].0, bg), s[j].1))
}

/// Set a flat background on all spans (used for cursor-line highlight).
pub fn span_bg(spans: &Vec<(SpanStyle, String)>, bg: Color) -> (r: Vec<(SpanStyle, String)>)
    ensures
        spans_view(r@) == bg_view(spans_view(spans@), bg),
{
    let mut out: Vec<(SpanStyle, String)> = Vec::new();
    let n = spans.len();
    let mut i: usize = 0;
    while i < n
        invariant
            i <= n == spans@.len(),
            out@.len() == i,
            forall|j: int|
                0 <= j < i ==> #[trigger] out@[j].0 == with_bg(spans@[j].0, bg) && out@[j].1@
                    == spans@[j].1@,
        decreases n - i,
    {
        let mut s = spans[i].0;
        s.bg = Some(bg);
        let text = String::from_str(spans[i].1.as_str());
        out.push((s, text));
        i += 1;
    }
    assert(spans_view(out@) =~= bg_view(spans_view(spans@), bg));
    out
}

/// The pieces of the span `(st, t)` at byte `off` of the line when the
/// bytes `[lo, hi)` of the line are selected: the part before the
/// selection and the part after it on `default_bg`, the selected part on
/// `sel_bg`; empty parts are left out.
pub open spec fn overlay_pieces(
    st: SpanStyle,
    t: Seq<u8>,
    off: int,
    lo: int,
    hi: int,
    sel_bg: Color,
    default_bg: Color,
) -> Seq<(SpanStyle, Seq<u8>)> {
    let e = off + t.len();
    let pre_end = if lo < e {
        lo
    } else {
        e
    };
    let pre: Seq<(SpanStyle, Seq<u8>)> = if off < lo && pre_end - off > 0 {
        seq![(with_bg(st, default_bg), t.subrange(0, pre_end - off))]
    } else {
        Seq::empty()
    };
    let sel_start = if off > lo {
        off
    } else {
        lo
    };
    let sel_end = if e < hi {
        e
    } else {
        hi
    };
    let sel: Seq<(SpanStyle, Seq<u8>)> = if sel_start < sel_end {
        seq![(with_bg(st, sel_bg), t.subrange(sel_start - off, sel_end - off))]
    } else {
        Seq::empty()
    };
    let post_start = if off > hi {
        off
    } else {
        hi
    };
    let post: Seq<(SpanStyle, Seq<u8>)> = if post_start < e {
        seq![(with_bg(st, default_bg), t.subrange(post_start - off, t.len() as int))]
    } else {
        Seq::empty()
    };
    pre + sel + post
}

/// The cuts of `overlay_pieces` fall on character boundaries of `t`.
pub open spec fn overlay_cuts_ok(t: Seq<u8>, off: int, lo: int, hi: int) -> bool {
    let e = off + t.len();
    &&& (off < lo && lo < e ==> char_boundary(t, lo - off))
    &&& (off < hi && hi < e ==> char_boundary(t, hi - off))
}

/// The spans with the selection `[lo, hi)` painted on them.
pub open spec fn overlay_view(
    s: Seq<(SpanStyle, Seq<u8>)>,
    lo: int,
    hi: int,
    sel_bg: Color,
    default_bg: Color,
) -> Seq<(SpanStyle, Seq<u8>)>
    decreases s.len(),
{
    if s.len() == 0 {
        Seq::empty()
    } else {
        overlay_view(s.drop_last(), lo, hi, sel_bg, default_bg) + overlay_pieces(
            s.last().0,
            s.last().1,
            total_len(s.drop_last()) as int,
            lo,
            hi,
            sel_bg,
            default_bg,
        )
    }
}

/// The selection's ends cut every span on a character boundary.
pub open spec fn overlay_ok(s: Seq<(SpanStyle, Seq<u8>)>, lo: int, hi: int) -> bool {
    forall|k: int|
        0 <= k < s.len() ==> overlay_cuts_ok(s[k].1, #[trigger] total_len(s.take(k)) as int, lo, hi)
}

/// Overlay a selection background on the byte range `[lo, hi)` of the line,
/// using `sel_bg` for the selected portion and `default_bg` for the rest.
pub fn span_bg_overlay(
    spans: &Vec<(SpanStyle, String)>,
    lo: usize,
    hi: usize,
    sel_bg: Color,
    default_bg: Color,
) -> (r: Vec<(SpanStyle, String)>)
    requires
        total_len(spans_view(spans@)) <= usize::MAX,
        overlay_ok(spans_view(spans@), lo as int, hi as int),
    ensures
        spans_view(r@) == overlay_view(spans_view(spans@), lo as int, hi as int, sel_bg, default_bg),
{
    let ghost sv = spans_view(spans@);
    let mut out: Vec<(SpanStyle, String)> = Vec::new();
    let mut offset: usize = 0;
    let n = spans.len();
    let mut i: usize = 0;
    assert(sv.take(0) =~= Seq::<(SpanStyle, Seq<u8>)>::empty());
    while i < n
        invariant
            i <= n == spans@.len() == sv.len(),
            sv == spans_view(spans@),
            total_len(sv) <= usize::MAX,
            overlay_ok(sv, lo as int, hi as int),
            offset == total_len(sv.take(i as int)),
            spans_view(out@) == overlay_view(sv.take(i as int), lo as int, hi as int, sel_bg, default_bg),
        decreases n - i,
    {
        let style = spans[i].0;
        let text = spans[i].1.as_str();
        proof {
            lemma_total_len_take(sv, i as int);
            lemma_total_len_prefix(sv, i + 1);
            assert(sv.take(i + 1).drop_last() =~= sv.take(i as int));
            assert(sv.take(i + 1).last() == sv[i as int]);
            assert(overlay_cuts_ok(sv[i as int].1, total_len(sv.take(i as int)) as int, lo as int, hi as int));
        }
        let ghost before = spans_view(out@);
        push_overlay_pieces(&mut out, style, text, offset, lo, hi, sel_bg, default_bg);
        assert(spans_view(out@) =~= overlay_view(sv.take(i + 1), lo as int, hi as int, sel_bg, default_bg));
        offset = offset + text.as_bytes().len();
        i += 1;
    }
    assert(sv.take(n as int) =~= sv);
    out
}

/// Append the pieces of one span (see `overlay_pieces`).
fn push_overlay_pieces(
    out: &mut Vec<(SpanStyle, String)>,
    style: SpanStyle,
    text: &str,
    offset: usize,
    lo: usize,
    hi: usize,
    sel_bg: Color,
    default_bg: Color,
)
    requires
        offset + encode_utf8(text@).len() <= usize::MAX,
        overlay_cuts_ok(encode_utf8(text@), offset as int, lo as int, hi as int),
    ensures
        spans_view(final(out)@) == spans_view(old(out)@) + overlay_pieces(
            style,
            encode_utf8(text@),
            offset as int,
            lo as int,
            hi as int,
            sel_bg,
            default_bg,
        ),
{
    let ghost t = encode_utf8(text@);
    let len = text.as_bytes().len();
    let span_start = offset;
    let span_end = offset + len;
    proof {
        vstd::utf8::encode_utf8_valid_utf8(text@);
    }
    let ghost v0 = spans_view(out@);
    // Before selection
    if span_start < lo {
        let pre_end = if lo < span_end {
            lo
        } else {
            span_end
        };
        let pre_len = pre_end - span_start;
        if pre_len > 0 {
            let mut s = style;
            s.bg = Some(default_bg);
            out.push((s, byte_slice(text, 0, pre_len)));
        }
    }
    let ghost v1 = spans_view(out@);
    // Selection portion
    let sel_start = if span_start > lo {
        span_start
    } else {
        lo
    };
    let sel_end = if span_end < hi {
        span_end
    } else {
        hi
    };
    if sel_start < sel_end {
        let start_in_span = sel_start - span_start;
        let n = sel_end - sel_start;
        let mut s = style;
        s.bg = Some(sel_bg);
        out.push((s, byte_slice(text, start_in_span, start_in_span + n)));
    }
    let ghost v2 = spans_view(out@);
    // After selection
    let post_start = if span_start > hi {
        span_start
    } else {
        hi
    };
    if post_start < span_end {
        let start_in_span = post_start - span_start;
        let mut s = style;
        s.bg = Some(default_bg);
        out.push((s, byte_slice(text, start_in_span, len)));
    }
    assert(spans_view(out@) =~= v0 + overlay_pieces(
        style,
        t,
        offset as int,
        lo as int,
        hi as int,
        sel_bg,
        default_bg,
    ));
}

// ── laws ──────────────────────────────────────────────────────────────

/// The bytes of the spans' texts one after the other.
pub open spec fn concat_bytes(s: Seq<(SpanStyle, Seq<u8>)>) -> Seq<u8>
    decreases s.len(),
{
    if s.len() == 0 {
        Seq::empty()
    } else {
        concat_bytes(s.drop_last()) + s.last().1
    }
}

proof fn lemma_concat_len(s: Seq<(SpanStyle, Seq<u8>)>)
    ensures
        concat_bytes(s).len() == total_len(s),
    decreases s.len(),
{
    if s.len() > 0 {
        lemma_concat_len(s.drop_last());
    }
}

proof fn lemma_concat_append(a: Seq<(SpanStyle, Seq<u8>)>, b: Seq<(SpanStyle, Seq<u8>)>)
    ensures
        concat_bytes(a + b) == concat_bytes(a) + concat_bytes(b),
    decreases b.len(),
{
    if b.len() == 0 {
        assert(a + b =~= a);
        assert(concat_bytes(a) + concat_bytes(b) =~= concat_bytes(a));
    } else {
        assert((a + b).drop_last() =~= a + b.drop_last());
        lemma_concat_append(a, b.drop_last());
        assert(concat_bytes(a) + concat_bytes(b.drop_last()) + b.last().1 =~= concat_bytes(a) + (
        concat_bytes(b.drop_last()) + b.last().1));
    }
}

proof fn lemma_pieces_tile(
    st: SpanStyle,
    t: Seq<u8>,
    off: int,
    lo: int,
    hi: int,
    sel_bg: Color,
    default_bg: Color,
)
    requires
        lo <= hi,
        off >= 0,
    ensures
        concat_bytes(overlay_pieces(st, t, off, lo, hi, sel_bg, default_bg)) == t,
{
    let p = overlay_pieces(st, t, off, lo, hi, sel_bg, default_bg);
    let e = off + t.len();
    let pre_end = if lo < e {
        lo
    } else {
        e
    };
    let pre: Seq<(SpanStyle, Seq<u8>)> = if off < lo && pre_end - off > 0 {
        seq![(with_bg(st, default_bg), t.subrange(0, pre_end - off))]
    } else {
        Seq::empty()
    };
    let sel_start = if off > lo {
        off
    } else {
        lo
    };
    let sel_end = if e < hi {
        e
    } else {
        hi
    };
    let sel: Seq<(SpanStyle, Seq<u8>)> = if sel_start < sel_end {
        seq![(with_bg(st, sel_bg), t.subrange(sel_start - off, sel_end - off))]
    } else {
        Seq::empty()
    };
    let post_start = if off > hi {
        off
    } else {
        hi
    };
    let post: Seq<(SpanStyle, Seq<u8>)> = if post_start < e {
        seq![(with_bg(st, default_bg), t.subrange(post_start - off, t.len() as int))]
    } else {
        Seq::empty()
    };
    assert(p == pre + sel + post);
    lemma_concat_append(pre + sel, post);
    lemma_concat_append(pre, sel);
    assert forall|x: (SpanStyle, Seq<u8>)| #[trigger] concat_bytes(seq![x]) == x.1 by {
        let e = Seq::<(SpanStyle, Seq<u8>)>::empty();
        assert(seq![x].drop_last() =~= e);
        assert(concat_bytes(e) == Seq::<u8>::empty());
        assert(seq![x].last() == x);
        assert(Seq::<u8>::empty() + x.1 =~= x.1);
    }
    // The three parts tile the span
    let a = if off < lo {
        pre_end - off
    } else {
        0
    };
    let b = if sel_start < sel_end {
        sel_end - off
    } else {
        a
    };
    assert(concat_bytes(pre) == t.subrange(0, a));
    assert(concat_bytes(sel) == t.subrange(a, b));
    assert(concat_bytes(post) == t.subrange(b, t.len() as int));
    assert(t.subrange(0, a) + t.subrange(a, b) + t.subrange(b, t.len() as int) =~= t);
}

/// Painting a selection on the spans keeps their text: the pieces, one
/// after the other, are the line's bytes.
pub proof fn law_overlay_keeps_text(
    s: Seq<(SpanStyle, Seq<u8>)>,
    lo: int,
    hi: int,
    sel_bg: Color,
    default_bg: Color,
)
    requires
        lo <= hi,
    ensures
        concat_bytes(overlay_view(s, lo, hi, sel_bg, default_bg)) == concat_bytes(s),
    decreases s.len(),
{
    if s.len() > 0 {
        law_overlay_keeps_text(s.drop_last(), lo, hi, sel_bg, default_bg);
        let (st, t) = s.last();
        let off = total_len(s.drop_last()) as int;
        lemma_pieces_tile(st, t, off, lo, hi, sel_bg, default_bg);
        lemma_concat_append(
            overlay_view(s.drop_last(), lo, hi, sel_bg, default_bg),
            overlay_pieces(st, t, off, lo, hi, sel_bg, default_bg),
        );
    } else {
        assert(overlay_view(s, lo, hi, sel_bg, default_bg) =~= Seq::empty());
    }
}

/// A flat background keeps the spans' text.
pub proof fn law_bg_keeps_text(s: Seq<(SpanStyle, Seq<u8>)>, bg: Color)
    ensures
        concat_bytes(bg_view(s, bg)) == concat_bytes(s),
    decreases s.len(),
{
    if s.len() > 0 {
        law_bg_keeps_text(s.drop_last(), bg);
        assert(bg_view(s, bg).drop_last() =~= bg_view(s.drop_last(), bg));
    } else {
        assert(bg_view(s, bg) =~= Seq::empty());
    }
}

/// Clipping shows exactly the visible window: the clipped pieces, one
/// after the other, are the line's bytes from `start` to `end` (as far as
/// the line goes).
pub proof fn law_clip_shows_window(s: Seq<(SpanStyle, Seq<u8>)>, start: int, end: int)
    requires
        0 <= start <= end,
    ensures
        ({
            let n = total_len(s) as int;
            concat_bytes(clip_view(s, start, end)) == concat_bytes(s).subrange(
                if start < n {
                    start
                } else {
                    n
                },
                if end < n {
                    end
                } else {
                    n
                },
            )
        }),
    decreases s.len(),
{
    lemma_concat_len(s);
    if s.len() == 0 {
        assert(clip_view(s, start, end) =~= Seq::empty());
        assert(concat_bytes(s).subrange(0, 0) =~= Seq::<u8>::empty());
    } else {
        let d = s.drop_last();
        let (st, t) = s.last();
        let off = total_len(d) as int;
        law_clip_shows_window(d, start, end);
        lemma_concat_len(d);
        let cd = concat_bytes(d);
        assert(concat_bytes(s) == cd + t);
        let prev = clip_view(d, start, end);
        let lo_d = if start < off {
            start
        } else {
            off
        };
        let hi_d = if end < off {
            end
        } else {
            off
        };
        assert(concat_bytes(prev) == cd.subrange(lo_d, hi_d));
        if overlaps(off, t, start, end) {
            let (lo, hi) = clip_cuts(off, t, start, end);
            let piece = t.subrange(lo, t.len() - hi);
            assert(clip_view(s, start, end) == prev.push((st, piece)));
            assert(concat_bytes(prev.push((st, piece))) == concat_bytes(prev) + piece) by {
                assert(prev.push((st, piece)).drop_last() =~= prev);
            }
            assert(cd.subrange(lo_d, hi_d) + piece =~= (cd + t).subrange(
                start,
                if end < off + t.len() {
                    end
                } else {
                    off + t.len()
                },
            ));
        } else {
            assert(clip_view(s, start, end) == prev);
            let n = off + t.len();
            assert(cd.subrange(lo_d, hi_d) =~= (cd + t).subrange(
                if start < n {
                    start
                } else {
                    n
                },
                if end < n {
                    end
                } else {
                    n
                },
            ));
        }
    }
}

// ── checks of the cuts ────────────────────────────────────────────────

/// Whether byte `i` of `t` is a character boundary.
fn is_cut_ok(t: &[u8], i: usize) -> (b: bool)
    ensures
        b == char_boundary(t@, i as int),
{
    i <= t.len() && (i == t.len() || !(0x80u8 <= t[i] && t[i] <= 0xbfu8))
}

/// Whether `clip_spans_horiz` can cut the spans: their length fits in a
/// `usize` and the window cuts them on character boundaries.
pub fn clip_cuts_valid(spans: &Vec<(SpanStyle, String)>, scroll_col: usize, vis_cols: usize) -> (b: bool)
    ensures
        b == (total_len(spans_view(spans@)) <= usize::MAX && clip_ok(
            spans_view(spans@),
            scroll_col as int,
            window_end(scroll_col, vis_cols),
        )),
{
    let ghost sv = spans_view(spans@);
    let end = scroll_col.saturating_add(vis_cols);
    let n = spans.len();
    let mut offset: usize = 0;
    let mut i: usize = 0;
    assert(sv.take(0) =~= Seq::<(SpanStyle, Seq<u8>)>::empty());
    while i < n
        invariant
            i <= n == sv.len(),
            sv == spans_view(spans@),
            end == window_end(scroll_col, vis_cols),
            offset == total_len(sv.take(i as int)),
            forall|k: int|
                0 <= k < i ==> {
                    let off = #[trigger] total_len(sv.take(k)) as int;
                    let t = sv[k].1;
                    let (lo, hi) = clip_cuts(off, t, scroll_col as int, end as int);
                    overlaps(off, t, scroll_col as int, end as int) ==> char_boundary(t, lo)
                        && char_boundary(t, t.len() - hi)
                },
        decreases n - i,
    {
        let bytes = spans[i].1.as_str().as_bytes();
        let len = bytes.len();
        proof {
            lemma_total_len_take(sv, i as int);
            lemma_total_len_prefix(sv, i + 1);
        }
        if len > usize::MAX - offset {
            return false;
        }
        let span_start = offset;
        let span_end = offset + len;
        if span_end > scroll_col && span_start < end {
            let lo = if span_start < scroll_col {
                scroll_col - span_start
            } else {
                0
            };
            let hi = if span_end > end {
                span_end - end
            } else {
                0
            };
            if !(is_cut_ok(bytes, lo) && is_cut_ok(bytes, len - hi)) {
                assert(total_len(sv.take(i as int)) == offset);
                return false;
            }
        }
        offset = span_end;
        i += 1;
    }
    assert(sv.take(n as int) =~= sv);
    true
}

/// Whether `span_bg_overlay` can cut the spans at the selection `[lo,
/// hi)`: their length fits in a `usize` and the selection's ends cut them
/// on character boundaries.
pub fn overlay_cuts_valid(spans: &Vec<(SpanStyle, String)>, lo: usize, hi: usize) -> (b: bool)
    ensures
        b == (total_len(spans_view(spans@)) <= usize::MAX && overlay_ok(
            spans_view(spans@),
            lo as int,
            hi as int,
        )),
{
    let ghost sv = spans_view(spans@);
    let n = spans.len();
    let mut offset: usize = 0;
    let mut i: usize = 0;
    assert(sv.take(0) =~= Seq::<(SpanStyle, Seq<u8>)>::empty());
    while i < n
        invariant
            i <= n == sv.len(),
            sv == spans_view(spans@),
            offset == total_len(sv.take(i as int)),
            forall|k: int|
                0 <= k < i ==> overlay_cuts_ok(
                    sv[k].1,
                    #[trigger] total_len(sv.take(k)) as int,
                    lo as int,
                    hi as int,
                ),
        decreases n - i,
    {
        let bytes = spans[i].1.as_str().as_bytes();
        let len = bytes.len();
        proof {
            lemma_total_len_take(sv, i as int);
            lemma_total_len_prefix(sv, i + 1);
        }
        if len > usize::MAX - offset {
            return false;
        }
        let span_start = offset;
        let span_end = offset + len;
        let lo_ok = !(span_start < lo && lo < span_end) || is_cut_ok(bytes, lo - span_start);
        let hi_ok = !(span_start < hi && hi < span_end) || is_cut_ok(bytes, hi - span_start);
        if !(lo_ok && hi_ok) {
            assert(total_len(sv.take(i as int)) == offset);
            return false;
        }
        offset = span_end;
        i += 1;
    }
    assert(sv.take(n as int) =~= sv);
    true
}

} // verus!
