//! The cursor: a (line, byte column) position with an optional selection
//! anchor.
use vstd::prelude::*;
use crate::buffer::Buffer;
use crate::text_model::{char_boundary, lemma_line_start, line_count, line_len, line_start};

verus! {

#[derive(Debug, Clone, Copy, PartialEq, Eq)]
pub struct Cursor {
    pub line: usize,
    pub col: usize,
    pub selecting: bool,
    pub anchor: Option<(usize, usize)>,
}

/// Byte where line `l` starts, or the text length past the last line.
pub open spec fn line_byte(t: Seq<u8>, l: int) -> int {
    if l >= line_count(t) || l < 0 {
        t.len() as int
    } else {
        line_start(t, l as nat)
    }
}

/// Length of line `l` with its break, 0 past the last line.
pub open spec fn line_len_or_zero(t: Seq<u8>, l: int) -> int {
    if 0 <= l < line_count(t) {
        line_len(t, l as nat)
    } else {
        0
    }
}

/// The largest column the cursor may take on line `l`: the break byte of a
/// line that has one, one past the last byte of the last line.
pub open spec fn col_limit(t: Seq<u8>, l: int) -> int {
    let n = line_len_or_zero(t, l);
    if l + 1 >= line_count(t) {
        n
    } else if n >= 1 {
        n - 1
    } else {
        0
    }
}

pub open spec fn min_int(a: int, b: int) -> int {
    if a <= b {
        a
    } else {
        b
    }
}

/// Byte offset of a (line, column) position.
pub open spec fn pos_byte(t: Seq<u8>, line: int, col: int) -> int {
    line_byte(t, line) + col
}

/// The cursor is on an existing line, within that line's column limit.
pub open spec fn cursor_in_text(c: Cursor, t: Seq<u8>) -> bool {
    c.line < line_count(t) && c.col <= col_limit(t, c.line as int)
}

/// Selection state after a movement that extends (`select`) or drops the
/// selection: extending fixes the anchor at the current position on the
/// first step of a gesture and keeps it afterwards.
pub open spec fn selecting_after(c: Cursor, select: bool) -> bool {
    select
}

pub open spec fn anchor_after(c: Cursor, select: bool) -> Option<(usize, usize)> {
    if select {
        if c.selecting {
            c.anchor
        } else {
            Some((c.line, c.col))
        }
    } else {
        None
    }
}

/// The selection as an ordered byte range, when one is active.
pub open spec fn spec_selection_range(c: Cursor, t: Seq<u8>) -> Option<(int, int)> {
    match c.anchor {
        Some(a) => if c.selecting {
            let x = pos_byte(t, a.0 as int, a.1 as int);
            let y = pos_byte(t, c.line as int, c.col as int);
            if x <= y {
                Some((x, y))
            } else {
                Some((y, x))
            }
        } else {
            None
        },
        None => None,
    }
}

/// Both ends of an active selection fit in a `usize`.
pub open spec fn selection_fits(c: Cursor, t: Seq<u8>) -> bool {
    match c.anchor {
        Some(a) => c.selecting ==> {
            &&& pos_byte(t, a.0 as int, a.1 as int) <= usize::MAX
            &&& pos_byte(t, c.line as int, c.col as int) <= usize::MAX
        },
        None => true,
    }
}

/// A cursor with a selection has a selection range on every text, an
/// ordered one.
pub proof fn law_selection_has_range(c: Cursor, t: Seq<u8>)
    requires
        c.selecting && c.anchor is Some && c.anchor != Some((c.line, c.col)),
    ensures
        spec_selection_range(c, t) is Some,
        ({
            let r = spec_selection_range(c, t)->0;
            r.0 <= r.1
        }),
{
}

impl Cursor {
    pub fn new() -> (c: Self)
        ensures
            c.line == 0,
            c.col == 0,
            !c.selecting,
            c.anchor is None,
    {
        Cursor { line: 0, col: 0, selecting: false, anchor: None }
    }

    /// Byte offset of the cursor in the buffer.
    pub fn byte_idx(&self, buffer: &Buffer) -> (n: usize)
        requires
            pos_byte(buffer@, self.line as int, self.col as int) <= usize::MAX,
        ensures
            n == pos_byte(buffer@, self.line as int, self.col as int),
    {
        buffer.line_to_byte(self.line) + self.col
    }

    /// Begin or continue a selection.  On first call in a selection
    /// gesture the anchor is fixed at the current cursor position.
    fn begin_select(&mut self)
        ensures
            final(self).selecting,
            final(self).anchor == anchor_after(*old(self), true),
            final(self).line == old(self).line,
            final(self).col == old(self).col,
    {
        if !self.selecting {
            self.selecting = true;
            self.anchor = Some((self.line, self.col));
        }
    }

    fn update_selection(&mut self, select: bool)
        ensures
            final(self).selecting == selecting_after(*old(self), select),
            final(self).anchor == anchor_after(*old(self), select),
            final(self).line == old(self).line,
            final(self).col == old(self).col,
    {
        if select {
            self.begin_select();
        } else {
            self.clear_selection();
        }
    }

    pub fn clear_selection(&mut self)
        ensures
            clear_selection_post(old(self), final(self)),
    {
        self.selecting = false;
        self.anchor = None;
    }

    pub fn has_selection(&self) -> (b: bool)
        ensures
            b == (self.selecting && self.anchor is Some && self.anchor != Some(
                (self.line, self.col),
            )),
    {
        if !self.selecting {
            return false;
        }
        match self.anchor {
            Some(a) => a.0 != self.line || a.1 != self.col,
            None => false,
        }
    }

    /// Normalised byte range `(start, end)` of the selection, if any.
    pub fn selection_range(&self, buffer: &Buffer) -> (r: Option<(usize, usize)>)
        requires
            selection_fits(*self, buffer@),
        ensures
            match r {
                Some(p) => spec_selection_range(*self, buffer@) == Some((p.0 as int, p.1 as int)),
                None => spec_selection_range(*self, buffer@) is None,
            },
    {
        let anchor = match self.anchor {
            Some(a) => a,
            None => return None,
        };
        if !self.selecting {
            return None;
        }
        let a = buffer.line_to_byte(anchor.0) + anchor.1;
        let b = buffer.line_to_byte(self.line) + self.col;
        if a <= b {
            Some((a, b))
        } else {
            Some((b, a))
        }
    }

    /// Extract the selected text, if any.
    pub fn selected_text(&self, buffer: &Buffer) -> (s: Option<String>)
        requires
            selection_fits(*self, buffer@),
            spec_selection_range(*self, buffer@) matches Some(p) ==> char_boundary(buffer@, p.0)
                && char_boundary(buffer@, p.1),
        ensures
            match spec_selection_range(*self, buffer@) {
                Some(p) => if p.0 == p.1 {
                    s is None
                } else {
                    s matches Some(x) && vstd::utf8::encode_utf8(x@) == buffer@.subrange(p.0, p.1)
                },
                None => s is None,
            },
    {
        let (start, end) = match self.selection_range(buffer) {
            Some(r) => r,
            None => return None,
        };
        if start == end {
            return None;
        }
        Some(buffer.text_between(start, end))
    }

    // ── movement with selection support ──────────────────────────
    pub fn move_up(&mut self, buffer: &Buffer, select: bool)
        ensures
            move_up_post(old(self), final(self), buffer, select),
    {
        self.update_selection(select);
        if self.line > 0 {
            self.line -= 1;
            self.clamp_col(buffer);
        }
    }

    pub fn move_down(&mut self, buffer: &Buffer, select: bool)
        requires
            old(self).line < usize::MAX,
        ensures
            move_down_post(old(self), final(self), buffer, select),
    {
        self.update_selection(select);
        if self.line + 1 < buffer.line_count() {
            self.line += 1;
            self.clamp_col(buffer);
        }
    }

    pub fn move_left(&mut self, buffer: &Buffer, select: bool)
        ensures
            move_left_post(old(self), final(self), buffer, select),
    {
        self.update_selection(select);
        if self.col > 0 {
            self.col -= 1;
        } else if self.line > 0 {
            self.line -= 1;
            let len = buffer.line_len_bytes(self.line);
            self.col = if len > 1 {
                len - 1
            } else {
                0
            };
        }
    }

    pub fn move_right(&mut self, buffer: &Buffer, select: bool)
        requires
            old(self).line < usize::MAX,
        ensures
            move_right_post(old(self), final(self), buffer, select),
    {
        self.update_selection(select);
        proof {
            if self.line + 1 < line_count(buffer@) {
                lemma_line_start(buffer@, (self.line + 1) as nat);
            }
        }
        let line_len = buffer.line_len_bytes(self.line);
        let is_last = self.line + 1 >= buffer.line_count();
        let limit = if is_last {
            line_len
        } else {
            line_len.saturating_sub(1)
        };
        if self.col < limit {
            self.col += 1;
        } else if self.line + 1 < buffer.line_count() {
            self.line += 1;
            self.col = 0;
        }
    }

    pub fn move_home(&mut self, _buffer: &Buffer, select: bool)
        ensures
            move_home_post(old(self), final(self), _buffer, select),
    {
        self.update_selection(select);
        self.col = 0;
    }

    pub fn move_end(&mut self, buffer: &Buffer, select: bool)
        requires
            old(self).line < usize::MAX,
        ensures
            move_end_post(old(self), final(self), buffer, select),
    {
        self.update_selection(select);
        let len = buffer.line_len_bytes(self.line);
        if self.line + 1 < buffer.line_count() {
            self.col = len.saturating_sub(1);
        } else {
            self.col = len;
        }
    }

    pub fn move_page_up(&mut self, buffer: &Buffer, view_height: usize, select: bool)
        ensures
            move_page_up_post(old(self), final(self), buffer, view_height, select),
    {
        self.update_selection(select);
        let steps = view_height.saturating_sub(1);
        let ghost start = *self;
        let mut i: usize = 0;
        while i < steps && self.line > 0
            invariant
                0 <= i <= steps,
                self.line == start.line - i,
                self.col == start.col,
                self.selecting == start.selecting,
                self.anchor == start.anchor,
            decreases steps - i,
        {
            self.line -= 1;
            i += 1;
        }
        self.clamp_col(buffer);
    }

    pub fn move_page_down(&mut self, buffer: &Buffer, view_height: usize, select: bool)
        ensures
            move_page_down_post(old(self), final(self), buffer, view_height, select),
    {
        self.update_selection(select);
        let max_line = buffer.line_count().saturating_sub(1);
        let steps = view_height.saturating_sub(1);
        let ghost start = *self;
        let mut i: usize = 0;
        while i < steps && self.line < max_line
            invariant
                0 <= i <= steps,
                max_line == line_count(buffer@) - 1,
                self.line == start.line + i,
                i > 0 ==> self.line <= max_line,
                self.col == start.col,
                self.selecting == start.selecting,
                self.anchor == start.anchor,
            decreases steps - i,
        {
            self.line += 1;
            i += 1;
        }
        self.clamp_col(buffer);
    }

    // ── helpers ──────────────────────────────────────────────────
    fn clamp_col(&mut self, buffer: &Buffer)
        ensures
            final(self).line == old(self).line,
            final(self).col == min_int(old(self).col as int, col_limit(buffer@, old(self).line as int)),
            final(self).selecting == old(self).selecting,
            final(self).anchor == old(self).anchor,
    {
        let max_col = buffer.line_len_bytes(self.line);
        let is_last = self.line >= buffer.line_count() || self.line + 1 >= buffer.line_count();
        let limit = if is_last {
            max_col
        } else {
            max_col.saturating_sub(1)
        };
        if self.col > limit {
            self.col = limit;
        }
    }
}

/// What `clear_selection` does to the cursor: Dropping the selection.
pub open spec fn clear_selection_post(pre: &Cursor, post: &Cursor) -> bool {
    &&& !post.selecting
    &&& post.anchor is None
    &&& post.line == pre.line
    &&& post.col == pre.col
}

/// What `move_up` does to the cursor: One line up, the column clamped to the new line.
pub open spec fn move_up_post(pre: &Cursor, post: &Cursor, buffer: &Buffer, select: bool) -> bool {
    &&& post.selecting == selecting_after(*pre, select)
    &&& post.anchor == anchor_after(*pre, select)
    &&& (pre.line > 0 ==> post.line == pre.line - 1 && post.col
                == min_int(pre.col as int, col_limit(buffer@, pre.line - 1)))
    &&& pre.line == 0 ==> post.line == 0 && post.col == pre.col
    &&& cursor_in_text(*pre, buffer@) ==> cursor_in_text(*post, buffer@)
}

/// What `move_down` does to the cursor: One line down, the column clamped to the new line.
pub open spec fn move_down_post(pre: &Cursor, post: &Cursor, buffer: &Buffer, select: bool) -> bool {
    &&& post.selecting == selecting_after(*pre, select)
    &&& post.anchor == anchor_after(*pre, select)
    &&& (pre.line + 1 < line_count(buffer@) ==> post.line == pre.line + 1
                && post.col == min_int(pre.col as int, col_limit(buffer@, pre.line + 1)))
    &&& (pre.line + 1 >= line_count(buffer@) ==> post.line == pre.line
                && post.col == pre.col)
    &&& cursor_in_text(*pre, buffer@) ==> cursor_in_text(*post, buffer@)
}

/// What `move_left` does to the cursor: One byte left, or to the end of the previous line.
pub open spec fn move_left_post(pre: &Cursor, post: &Cursor, buffer: &Buffer, select: bool) -> bool {
    &&& post.selecting == selecting_after(*pre, select)
    &&& post.anchor == anchor_after(*pre, select)
    &&& (pre.col > 0 ==> post.line == pre.line && post.col
                == pre.col - 1)
    &&& (pre.col == 0 && pre.line > 0 ==> post.line == pre.line - 1
                && post.col == (if line_len_or_zero(buffer@, pre.line - 1) > 1 {
                line_len_or_zero(buffer@, pre.line - 1) - 1
            } else {
                0
            }))
    &&& pre.col == 0 && pre.line == 0 ==> post.line == 0 && post.col == 0
    &&& cursor_in_text(*pre, buffer@) ==> cursor_in_text(*post, buffer@)
}

/// What `move_right` does to the cursor: One byte right, or to the start of the next line.
pub open spec fn move_right_post(pre: &Cursor, post: &Cursor, buffer: &Buffer, select: bool) -> bool {
    &&& post.selecting == selecting_after(*pre, select)
    &&& post.anchor == anchor_after(*pre, select)
    &&& pre.col < col_limit(buffer@, pre.line as int) ==> post.line == pre.line && post.col == pre.col + 1
    &&& (pre.col >= col_limit(buffer@, pre.line as int) && pre.line + 1
                < line_count(buffer@) ==> post.line == pre.line + 1 && post.col
                == 0)
    &&& (pre.col >= col_limit(buffer@, pre.line as int) && pre.line + 1
                >= line_count(buffer@) ==> post.line == pre.line && post.col
                == pre.col)
    &&& cursor_in_text(*pre, buffer@) ==> cursor_in_text(*post, buffer@)
}

/// What `move_home` does to the cursor: To the start of the line.
pub open spec fn move_home_post(pre: &Cursor, post: &Cursor, _buffer: &Buffer, select: bool) -> bool {
    &&& post.selecting == selecting_after(*pre, select)
    &&& post.anchor == anchor_after(*pre, select)
    &&& post.line == pre.line
    &&& post.col == 0
    &&& cursor_in_text(*pre, _buffer@) ==> cursor_in_text(*post, _buffer@)
}

/// What `move_end` does to the cursor: To the end of the line.
pub open spec fn move_end_post(pre: &Cursor, post: &Cursor, buffer: &Buffer, select: bool) -> bool {
    &&& post.selecting == selecting_after(*pre, select)
    &&& post.anchor == anchor_after(*pre, select)
    &&& post.line == pre.line
    &&& post.col == col_limit(buffer@, pre.line as int)
    &&& cursor_in_text(*pre, buffer@) ==> cursor_in_text(*post, buffer@)
}

/// What `move_page_up` does to the cursor: A screenful up.
pub open spec fn move_page_up_post(pre: &Cursor, post: &Cursor, buffer: &Buffer, view_height: usize, select: bool) -> bool {
    &&& post.selecting == selecting_after(*pre, select)
    &&& post.anchor == anchor_after(*pre, select)
    &&& (post.line == pre.line - min_int(
                pre.line as int,
                if view_height >= 1 {
                    view_height - 1
                } else {
                    0
                },
            ))
    &&& post.col == min_int(pre.col as int, col_limit(buffer@, post.line as int))
    &&& cursor_in_text(*pre, buffer@) ==> cursor_in_text(*post, buffer@)
}

/// What `move_page_down` does to the cursor: A screenful down.
pub open spec fn move_page_down_post(pre: &Cursor, post: &Cursor, buffer: &Buffer, view_height: usize, select: bool) -> bool {
    &&& post.selecting == selecting_after(*pre, select)
    &&& post.anchor == anchor_after(*pre, select)
    &&& (post.line == (if pre.line + 1 >= line_count(buffer@) {
                pre.line as int
            } else {
                min_int(
                    pre.line + (if view_height >= 1 {
                        view_height - 1
                    } else {
                        0
                    }),
                    line_count(buffer@) - 1,
                )
            }))
    &&& post.col == min_int(pre.col as int, col_limit(buffer@, post.line as int))
    &&& cursor_in_text(*pre, buffer@) ==> cursor_in_text(*post, buffer@)
}

/// Moving down one line keeps the column when the next line reaches it,
/// and otherwise puts the cursor at that line's last position; the column
/// never grows.
pub proof fn law_move_down_keeps_column(pre: Cursor, post: Cursor, buffer: &Buffer, select: bool)
    requires
        move_down_post(&pre, &post, buffer, select),
        pre.line + 1 < line_count(buffer@),
    ensures
        post.line == pre.line + 1,
        pre.col <= col_limit(buffer@, pre.line + 1) ==> post.col == pre.col,
        pre.col > col_limit(buffer@, pre.line + 1) ==> post.col == col_limit(buffer@, pre.line + 1),
        post.col <= pre.col,
{
}

/// Moving up one line keeps the column when the previous line reaches it,
/// and otherwise puts the cursor at that line's last position; the column
/// never grows.
pub proof fn law_move_up_keeps_column(pre: Cursor, post: Cursor, buffer: &Buffer, select: bool)
    requires
        move_up_post(&pre, &post, buffer, select),
        pre.line > 0,
    ensures
        post.line == pre.line - 1,
        pre.col <= col_limit(buffer@, pre.line - 1) ==> post.col == pre.col,
        pre.col > col_limit(buffer@, pre.line - 1) ==> post.col == col_limit(buffer@, pre.line - 1),
        post.col <= pre.col,
{
}

/// Right and left move the cursor by one byte along its line: right to the
/// next byte, or from a line's end to the start of the next line; left to
/// the previous byte, or from a line's start to the end of the line above.
pub proof fn law_arrows_step_one_byte(pre: Cursor, right: Cursor, left: Cursor, buffer: &Buffer, select: bool)
    requires
        pre.line < line_count(buffer@),
        move_right_post(&pre, &right, buffer, select),
        move_left_post(&pre, &left, buffer, select),
    ensures
        pre.col < col_limit(buffer@, pre.line as int) ==> pos_byte(buffer@, right.line as int, right.col as int)
            == pos_byte(buffer@, pre.line as int, pre.col as int) + 1,
        pre.col >= col_limit(buffer@, pre.line as int) && pre.line + 1 < line_count(buffer@)
            ==> pos_byte(buffer@, right.line as int, right.col as int) == line_start(buffer@, (pre.line + 1) as nat),
        pre.col > 0 ==> pos_byte(buffer@, left.line as int, left.col as int) == pos_byte(
            buffer@,
            pre.line as int,
            pre.col as int,
        ) - 1,
        pre.col == 0 && pre.line > 0 && line_len(buffer@, (pre.line - 1) as nat) > 1 ==> left.line
            == pre.line - 1 && pos_byte(buffer@, left.line as int, left.col as int) == line_start(
            buffer@,
            pre.line as nat,
        ) - 1,
{
    if pre.line > 0 {
        assert(((pre.line - 1) + 1) as nat == pre.line as nat);
    }
}

/// Home puts the cursor on the first byte of its line, End just before the
/// line's break (at the end of the text on the last line).
pub proof fn law_home_end_reach_line_ends(pre: Cursor, home: Cursor, end: Cursor, buffer: &Buffer, select: bool)
    requires
        pre.line < line_count(buffer@),
        move_home_post(&pre, &home, buffer, select),
        move_end_post(&pre, &end, buffer, select),
    ensures
        pos_byte(buffer@, home.line as int, home.col as int) == line_start(buffer@, pre.line as nat),
        pre.line + 1 < line_count(buffer@) ==> pos_byte(buffer@, end.line as int, end.col as int)
            == line_start(buffer@, (pre.line + 1) as nat) - 1,
        pre.line + 1 == line_count(buffer@) ==> pos_byte(buffer@, end.line as int, end.col as int)
            == buffer@.len(),
{
    lemma_line_start(buffer@, pre.line as nat);
}

/// A movement with Shift extends the selection: started without one, it
/// anchors the selection where the cursor was, so the selection covers the
/// bytes between the old and the new position; with one, it keeps the
/// anchor. A movement without Shift drops the selection.
pub proof fn law_shift_arrow_extends_selection(pre: Cursor, post: Cursor, plain: Cursor, buffer: &Buffer)
    requires
        move_right_post(&pre, &post, buffer, true),
        move_right_post(&pre, &plain, buffer, false),
    ensures
        post.selecting,
        !pre.selecting ==> spec_selection_range(post, buffer@) == Some(
            if pos_byte(buffer@, pre.line as int, pre.col as int) <= pos_byte(
                buffer@,
                post.line as int,
                post.col as int,
            ) {
                (
                    pos_byte(buffer@, pre.line as int, pre.col as int),
                    pos_byte(buffer@, post.line as int, post.col as int),
                )
            } else {
                (
                    pos_byte(buffer@, post.line as int, post.col as int),
                    pos_byte(buffer@, pre.line as int, pre.col as int),
                )
            },
        ),
        pre.selecting ==> post.anchor == pre.anchor,
        !plain.selecting && plain.anchor is None,
{
}

} // verus!
