//! The editor state and the editing commands that act on it.
//!
//! Everything here is a decision on the editor's state; the terminal,
//! files, processes and the system clipboard are handled by the caller,
//! which performs the `Effect` that a command hands back.
use vstd::prelude::*;
use vstd::utf8::{encode_utf8, is_ascii_chars, valid_utf8};
use crate::buffer::Buffer;
use crate::cursor::{col_limit, line_byte, line_len_or_zero, pos_byte, Cursor};
use crate::history::{byte_len, spec_redo, spec_undo, Edit, EditView, History};
use crate::latex::CompileResult;
use crate::text_model::{
    breaks_before, char_boundary, char_bytes, lemma_encode_ascii, lemma_encode_concat, lemma_line_start,
    lemma_line_start_boundary, line_count, line_start, splice_insert, splice_remove,
};
use crate::text_util::{char_to_string, decimal, lemma_decimal_len_bound, usize_to_string};

verus! {

#[derive(Debug, Clone, Copy)]
pub enum CommandKind {
    SaveAs { force_tex: bool },
    Open,
    Find,
    GotoLine,
}

#[derive(Debug, Clone, Copy, PartialEq)]
pub enum ConfirmAction {
    SaveAsOverwrite,
}

#[derive(Debug, Clone)]
pub enum Mode {
    Normal,
    Command { input: String, kind: CommandKind },
    Confirm { message: String, action: ConfirmAction },
    ErrorView { errors: Vec<(usize, String)>, selected: usize },
    Help,
}

pub struct Scroll {
    pub line: usize,
    pub col: usize,
}

/// The state of the editor that its commands act on.
pub struct App {
    pub running: bool,
    pub mode: Mode,
    pub buffer: Buffer,
    pub cursor: Cursor,
    pub scroll: Scroll,
    /// The status message.
    pub message: String,
    /// Set whenever a message is shown, so that its display timer restarts.
    pub message_fresh: bool,
    pub terminal_height: u16,
    pub terminal_width: u16,
    /// The number of spaces Tab inserts (the `editor.tab_width` setting).
    pub tab_width: usize,
    pub history: History,
    pub clipboard: String,
    /// Ghost text (dimmed suggestion after cursor, accepted via Tab).
    pub ghost_text: Option<String>,
    pub last_compile: Option<CompileResult>,
    pub build_dirty: bool,
    pub open_zathura_on_complete: bool,
    /// Diagnostics from the last failed LaTeX build.
    pub diagnostics: Vec<String>,
    /// An automatic build is pending: the text was edited and the build
    /// that follows the edits has not started yet.
    pub debounce_requested: bool,
    /// Set by each edit, so that the automatic build's countdown restarts.
    pub edit_fresh: bool,
}

/// Bytes of `\begin{`.
pub open spec fn begin_bytes() -> Seq<u8> {
    seq![92u8, 98u8, 101u8, 103u8, 105u8, 110u8, 123u8]
}

/// Bytes of `\end{`.
pub open spec fn end_open_bytes() -> Seq<u8> {
    seq![92u8, 101u8, 110u8, 100u8, 123u8]
}

pub open spec fn is_begin_at(t: Seq<u8>, p: int) -> bool {
    0 <= p && p + 7 <= t.len() && t.subrange(p, p + 7) == begin_bytes()
}

/// The last `\begin{` that lies entirely in `[lo, hi)`.
pub open spec fn last_begin(t: Seq<u8>, lo: int, hi: int) -> Option<int>
    decreases hi - lo,
{
    if hi - lo < 7 {
        None
    } else if is_begin_at(t, hi - 7) {
        Some(hi - 7)
    } else {
        last_begin(t, lo, hi - 1)
    }
}

pub open spec fn is_brace(b: u8) -> bool {
    b == 123u8 || b == 125u8
}

/// The first `{` or `}` in `[from, end)`, or `end`.
pub open spec fn first_brace(t: Seq<u8>, from: int, end: int) -> int
    decreases end - from,
{
    if from >= end {
        end
    } else if is_brace(t[from]) {
        from
    } else {
        first_brace(t, from + 1, end)
    }
}

/// The environment name bytes `[start, end)` that a ghost `\end{..}` would
/// close, when the cursor at byte `idx` on line `line` follows a `\begin{`
/// on that line.
pub open spec fn ghost_env(t: Seq<u8>, line: int, idx: int) -> Option<(int, int)> {
    let ls = line_byte(t, line);
    let le = ls + line_len_or_zero(t, line);
    let ci = if idx > ls {
        idx - ls
    } else {
        0
    };
    let hi = if ls + ci < le {
        ls + ci
    } else {
        le
    };
    if ci < 1 {
        None
    } else {
        match last_begin(t, ls, hi) {
            Some(p) => {
                let es = p + 7;
                let ee = first_brace(t, es, le);
                if ee > es {
                    Some((es, ee))
                } else {
                    None
                }
            },
            None => None,
        }
    }
}

/// The ghost after a `ghost_check`: an `\end{env}` suggestion when the
/// line holds an open environment before the cursor, else unchanged.
pub open spec fn ghost_after_check(
    old_ghost: Option<String>,
    new_ghost: Option<String>,
    t: Seq<u8>,
    line: int,
    idx: int,
) -> bool {
    match ghost_env(t, line, idx) {
        Some(r) => new_ghost matches Some(g) && encode_utf8(g@) == end_open_bytes() + t.subrange(
            r.0,
            r.1,
        ) + seq![125u8],
        None => new_ghost == old_ghost,
    }
}

/// The text after applying an edit: its deleted text is replaced by its
/// inserted text at its byte index.
pub open spec fn apply_edit(t: Seq<u8>, e: EditView) -> Seq<u8> {
    t.subrange(0, e.byte_idx as int) + encode_utf8(e.inserted) + t.subrange(
        e.byte_idx + encode_utf8(e.deleted).len(),
        t.len() as int,
    )
}

/// The text after reverting an edit: its inserted text is replaced by its
/// deleted text.
pub open spec fn revert_edit(t: Seq<u8>, e: EditView) -> Seq<u8> {
    t.subrange(0, e.byte_idx as int) + encode_utf8(e.deleted) + t.subrange(
        e.byte_idx + encode_utf8(e.inserted).len(),
        t.len() as int,
    )
}

/// The vertical scroll that `ensure_cursor_visible` settles on.
pub open spec fn visible_scroll_line(cl: int, sl: int, vis: int, total: int) -> int {
    let s1 = if cl < sl {
        cl
    } else {
        sl
    };
    let s2 = if total > vis && cl >= s1 + vis {
        if cl >= vis - 1 {
            cl - (vis - 1)
        } else {
            0
        }
    } else {
        s1
    };
    if total > vis {
        if s2 > total - vis {
            total - vis
        } else {
            s2
        }
    } else {
        0
    }
}

/// The horizontal scroll that `ensure_cursor_visible` settles on.
pub open spec fn visible_scroll_col(cc: int, sc: int, vis: int) -> int {
    let s1 = if cc < sc {
        cc
    } else {
        sc
    };
    if cc >= s1 + vis {
        cc - (vis - 1)
    } else {
        s1
    }
}

/// Width of the line-number gutter for text `t`.
pub open spec fn gutter_width_for(t: Seq<u8>) -> int {
    (num_digits(
        if line_count(t) >= 1 {
            line_count(t)
        } else {
            1
        },
    ) + 1) as int
}

/// Width of the text area right of the gutter, at least one column.
pub open spec fn area_width_for(terminal_width: int, t: Seq<u8>) -> int {
    let w = sat_sub(sat_sub(terminal_width, gutter_width_for(t)), 1);
    if w >= 1 {
        w
    } else {
        1
    }
}

/// Number of decimal digits of `n`.
pub open spec fn num_digits(n: nat) -> nat {
    decimal(n).len()
}

pub open spec fn sat_sub(a: int, b: int) -> int {
    if a >= b {
        a - b
    } else {
        0
    }
}

fn begin_byte(k: usize) -> (b: u8)
    requires
        k < 7,
    ensures
        b == begin_bytes()[k as int],
{
    match k {
        0 => 92,
        1 => 98,
        2 => 101,
        3 => 103,
        4 => 105,
        5 => 110,
        _ => 123,
    }
}

impl App {
    pub open spec fn wf(&self) -> bool {
        self.buffer.wf() && self.history.wf()
    }

    /// Byte position of the cursor in the text.
    pub open spec fn cursor_pos(&self) -> int {
        pos_byte(self.buffer@, self.cursor.line as int, self.cursor.col as int)
    }

    /// The cursor sits on a character boundary of the text, where text
    /// can be inserted.
    pub open spec fn cursor_ok(&self) -> bool {
        char_boundary(self.buffer@, self.cursor_pos())
    }

    /// A fresh editor on a new file holding the LaTeX template, for a
    /// terminal of the given size, with Tab inserting `tab_width` spaces.
    pub fn new(terminal_width: u16, terminal_height: u16, tab_width: usize) -> (e: Self)
        ensures
            e.wf(),
            e.running,
            e.mode is Normal,
            e.buffer@ == encode_utf8(LATEX_TEMPLATE@),
            e.buffer.spec_path() is None,
            !e.buffer.spec_modified(),
            e.cursor.line == 0 && e.cursor.col == 0 && !e.cursor.selecting && e.cursor.anchor is None,
            e.scroll.line == 0 && e.scroll.col == 0,
            e.message@.len() == 0,
            !e.message_fresh,
            e.terminal_width == terminal_width,
            e.terminal_height == terminal_height,
            e.tab_width == tab_width,
            e.history@.stack.len() == 0 && e.history@.pos == 0 && e.history@.max_len == 1000,
            e.clipboard@.len() == 0,
            e.ghost_text is None,
            e.last_compile is None,
            !e.build_dirty,
            !e.open_zathura_on_complete,
            e.diagnostics@.len() == 0,
            !e.debounce_requested,
            !e.edit_fresh,
    {
        App {
            running: true,
            mode: Mode::Normal,
            buffer: Buffer::load_from_str(LATEX_TEMPLATE),
            cursor: Cursor::new(),
            scroll: Scroll { line: 0, col: 0 },
            message: String::new(),
            message_fresh: false,
            terminal_height,
            terminal_width,
            tab_width,
            history: History::new(),
            clipboard: String::new(),
            ghost_text: None,
            last_compile: None,
            build_dirty: false,
            open_zathura_on_complete: false,
            diagnostics: Vec::new(),
            debounce_requested: false,
            edit_fresh: false,
        }
    }

    /// Whether the cursor sits on a character boundary of the text.
    pub fn cursor_on_boundary(&self) -> (b: bool)
        ensures
            b == self.cursor_ok(),
    {
        let start = self.buffer.line_to_byte(self.cursor.line);
        let len = self.buffer.len_bytes();
        if start > len || self.cursor.col > len - start {
            return false;
        }
        let idx = start + self.cursor.col;
        if idx == len {
            return true;
        }
        let b = self.buffer.byte_at(idx);
        !(0x80u8 <= b && b <= 0xbfu8)
    }

    pub fn set_message(&mut self, msg: &str)
        ensures
            final(self).message@ == msg@,
            final(self).message_fresh,
            final(self).buffer == old(self).buffer,
            final(self).cursor == old(self).cursor,
            final(self).scroll == old(self).scroll,
            final(self).history == old(self).history,
            final(self).mode == old(self).mode,
            final(self).ghost_text == old(self).ghost_text,
            final(self).clipboard == old(self).clipboard,
            same_settings(final(self), old(self)),
    {
        self.message = String::from_str(msg);
        self.message_fresh = true;
    }

    fn set_message_string(&mut self, msg: String)
        ensures
            final(self).message@ == msg@,
            final(self).message_fresh,
            final(self).buffer == old(self).buffer,
            final(self).cursor == old(self).cursor,
            final(self).scroll == old(self).scroll,
            final(self).history == old(self).history,
            final(self).mode == old(self).mode,
            final(self).ghost_text == old(self).ghost_text,
            final(self).clipboard == old(self).clipboard,
            same_settings(final(self), old(self)),
    {
        self.message = msg;
        self.message_fresh = true;
    }

    /// Clears the status message.
    pub fn cancel_message(&mut self)
        ensures
            final(self).message@.len() == 0,
            *final(self) == (App { message: final(self).message, ..*old(self) }),
    {
        self.message = String::new();
    }

    /// Lines of text that fit above the status bar (and the command bar
    /// while a prompt is open); at least one.
    pub fn editor_height(&self) -> (h: usize)
        ensures
            h == self.spec_editor_height(),
            h >= 1,
    {
        let status_lines: u16 = if let Mode::Command { .. } = self.mode {
            2
        } else {
            1
        };
        let h = self.terminal_height.saturating_sub(status_lines);
        if h >= 1 {
            h as usize
        } else {
            1
        }
    }

    /// Width of the line-number gutter: the digits of the line count plus
    /// two.
    pub fn gutter_width(&self) -> (w: u16)
        ensures
            w == num_digits(if line_count(self.buffer@) >= 1 {
                line_count(self.buffer@)
            } else {
                1
            }) + 1,
    {
        let count = self.buffer.line_count();
        let n = if count >= 1 {
            count
        } else {
            1
        };
        let mut m = n;
        let mut digits: u16 = 1;
        proof {
            lemma_decimal_len_bound(n as nat);
        }
        while m >= 10
            invariant
                m >= 1,
                1 <= num_digits(n as nat) <= 20,
                num_digits(n as nat) == num_digits(m as nat) + digits - 1,
            decreases m,
        {
            proof {
                lemma_decimal_len_bound(m as nat);
                lemma_decimal_len_bound((m / 10) as nat);
            }
            assert(decimal(m as nat) == decimal((m / 10) as nat).push(
                crate::text_util::digit_char((m % 10) as nat),
            ));
            m = m / 10;
            digits = digits + 1;
        }
        digits + 1
    }

    /// Columns of text that fit right of the gutter; at least one.
    pub fn text_area_width(&self) -> (w: usize)
        ensures
            w == self.spec_text_area_width(),
            w >= 1,
    {
        let w = self.terminal_width.saturating_sub(self.gutter_width()).saturating_sub(1);
        if w >= 1 {
            w as usize
        } else {
            1
        }
    }

    pub open spec fn spec_editor_height(&self) -> int {
        let status_lines = if self.mode is Command {
            2
        } else {
            1
        };
        let h = sat_sub(self.terminal_height as int, status_lines);
        if h >= 1 {
            h
        } else {
            1
        }
    }

    pub open spec fn spec_text_area_width(&self) -> int {
        area_width_for(self.terminal_width as int, self.buffer@)
    }

    pub open spec fn spec_gutter_width(&self) -> int {
        gutter_width_for(self.buffer@)
    }

    /// The scroll position that `ensure_cursor_visible` settles on for
    /// cursor `c` in text `t`, starting from this editor's scroll.
    pub open spec fn settled_scroll(&self, c: Cursor, t: Seq<u8>) -> (int, int) {
        (
            visible_scroll_line(
                c.line as int,
                self.scroll.line as int,
                self.spec_editor_height(),
                line_count(t) as int,
            ),
            visible_scroll_col(
                c.col as int,
                self.scroll.col as int,
                area_width_for(self.terminal_width as int, t),
            ),
        )
    }
}

/// The record of an insertion of `s` at byte `idx`.
pub open spec fn insertion_edit(idx: int, s: Seq<char>, before: Cursor, after: Cursor) -> EditView {
    EditView {
        byte_idx: idx as usize,
        deleted: Seq::<char>::empty(),
        inserted: s,
        cursor_before: before,
        cursor_after: after,
    }
}

/// The record of a deletion of `d` at byte `idx`.
pub open spec fn deletion_edit(idx: int, d: Seq<char>, before: Cursor, after: Cursor) -> EditView {
    EditView {
        byte_idx: idx as usize,
        deleted: d,
        inserted: Seq::<char>::empty(),
        cursor_before: before,
        cursor_after: after,
    }
}

/// The fields that editing commands leave alone.
pub open spec fn same_settings(a: &App, b: &App) -> bool {
    &&& a.running == b.running
    &&& a.mode == b.mode
    &&& a.terminal_height == b.terminal_height
    &&& a.terminal_width == b.terminal_width
    &&& a.tab_width == b.tab_width
    &&& a.last_compile == b.last_compile
    &&& a.build_dirty == b.build_dirty
    &&& a.open_zathura_on_complete == b.open_zathura_on_complete
    &&& a.diagnostics == b.diagnostics
    &&& a.debounce_requested == b.debounce_requested
    &&& a.edit_fresh == b.edit_fresh
}

impl App {
    /// Scroll so that the cursor is on screen, keeping the view inside the
    /// text where it is taller than the screen.
    #[verifier::rlimit(30)]
    pub fn ensure_cursor_visible(&mut self)
        ensures
            ensure_cursor_visible_post(old(self), final(self)),
    {
        let vis_lines = self.editor_height();
        let total = self.buffer.line_count();
        // Vertical
        if self.cursor.line < self.scroll.line {
            self.scroll.line = self.cursor.line;
        }
        if total > vis_lines && self.cursor.line >= self.scroll.line && self.cursor.line
            - self.scroll.line >= vis_lines {
            self.scroll.line = self.cursor.line.saturating_sub(vis_lines - 1);
        }
        if total > vis_lines {
            let max_s = total - vis_lines;
            if self.scroll.line > max_s {
                self.scroll.line = max_s;
            }
        } else {
            self.scroll.line = 0;
        }
        // Horizontal
        let vis_cols = self.text_area_width();
        if self.cursor.col < self.scroll.col {
            self.scroll.col = self.cursor.col;
        }
        if self.cursor.col >= self.scroll.col && self.cursor.col - self.scroll.col >= vis_cols {
            self.scroll.col = self.cursor.col - (vis_cols - 1);
        }
    }

    /// Byte position of the cursor.
    pub(crate) fn cursor_byte(&self) -> (n: usize)
        requires
            self.cursor_ok(),
        ensures
            n == self.cursor_pos(),
            self.cursor.col <= n <= self.buffer@.len(),
    {
        let _ = self.buffer.len_bytes();
        proof {
            if (self.cursor.line as int) < line_count(self.buffer@) {
                lemma_line_start(self.buffer@, self.cursor.line as nat);
            }
        }
        self.cursor.byte_idx(&self.buffer)
    }

    /// Insert `s` at the cursor as one undoable edit, moving the cursor
    /// past it.
    pub(crate) fn insert_str_with_history(&mut self, s: &str)
        requires
            old(self).wf(),
            old(self).cursor_ok(),
        ensures
            insert_str_with_history_post(old(self), final(self), s@),
    {
        let cursor_before = self.cursor;
        let idx = self.cursor_byte();
        self.buffer.insert(idx, s);
        let n = s.as_bytes().len();
        let _ = self.buffer.len_bytes();
        self.cursor.col = self.cursor.col + n;
        let text = String::from_str(s);
        self.history.push(
            Edit {
                byte_idx: idx,
                deleted: String::new(),
                inserted: text,
                cursor_before,
                cursor_after: self.cursor,
            },
        );
    }
}

impl App {
    /// Whether a `\begin{` starts at byte `p`.
    fn begin_at(&self, p: usize) -> (b: bool)
        requires
            p + 7 <= self.buffer@.len(),
        ensures
            b == is_begin_at(self.buffer@, p as int),
    {
        let ghost t = self.buffer@;
        let n = self.buffer.len_bytes();
        let mut k: usize = 0;
        while k < 7
            invariant
                k <= 7,
                n == t.len(),
                p + 7 <= t.len(),
                t == self.buffer@,
                forall|j: int| 0 <= j < k ==> t[p + j] == begin_bytes()[j],
            decreases 7 - k,
        {
            if self.buffer.byte_at(p + k) != begin_byte(k) {
                proof {
                    assert(t.subrange(p as int, p + 7)[k as int] != begin_bytes()[k as int]);
                }
                return false;
            }
            k += 1;
        }
        assert(t.subrange(p as int, p + 7) =~= begin_bytes());
        true
    }

    /// The last `\begin{` lying entirely in `[lo, hi)`.
    fn find_last_begin(&self, lo: usize, hi: usize) -> (r: Option<usize>)
        requires
            lo <= hi <= self.buffer@.len(),
        ensures
            match r {
                Some(p) => last_begin(self.buffer@, lo as int, hi as int) == Some(p as int) && lo
                    <= p && p + 7 <= hi,
                None => last_begin(self.buffer@, lo as int, hi as int) is None,
            },
    {
        let mut h = hi;
        while h - lo >= 7
            invariant
                lo <= h <= hi <= self.buffer@.len(),
                last_begin(self.buffer@, lo as int, hi as int) == last_begin(
                    self.buffer@,
                    lo as int,
                    h as int,
                ),
            decreases h,
        {
            if self.begin_at(h - 7) {
                return Some(h - 7);
            }
            h -= 1;
        }
        None
    }

    /// The first `{` or `}` in `[from, end)`, or `end`.
    fn find_first_brace(&self, from: usize, end: usize) -> (q: usize)
        requires
            from <= end <= self.buffer@.len(),
        ensures
            q as int == first_brace(self.buffer@, from as int, end as int),
            from <= q <= end,
            q < end ==> is_brace(self.buffer@[q as int]),
    {
        let mut q = from;
        while q < end && !(self.buffer.byte_at(q) == 123u8 || self.buffer.byte_at(q) == 125u8)
            invariant
                from <= q <= end <= self.buffer@.len(),
                first_brace(self.buffer@, from as int, end as int) == first_brace(
                    self.buffer@,
                    q as int,
                    end as int,
                ),
            decreases end - q,
        {
            q += 1;
        }
        q
    }

    /// When the text before byte `idx` on the cursor's line opens an
    /// environment with `\begin{name`, offer `\end{name}` as ghost text.
    fn ghost_check(&mut self, idx: usize)
        requires
            old(self).buffer.wf(),
        ensures
            ghost_after_check(
                old(self).ghost_text,
                final(self).ghost_text,
                old(self).buffer@,
                old(self).cursor.line as int,
                idx as int,
            ),
            final(self).buffer == old(self).buffer,
            final(self).cursor == old(self).cursor,
            final(self).history == old(self).history,
            final(self).scroll == old(self).scroll,
            final(self).message == old(self).message,
            final(self).message_fresh == old(self).message_fresh,
            final(self).clipboard == old(self).clipboard,
            same_settings(final(self), old(self)),
    {
        let ghost t = self.buffer@;
        let line = self.cursor.line;
        let line_start = self.buffer.line_to_byte(line);
        let line_len = self.buffer.line_len_bytes(line);
        let total = self.buffer.len_bytes();
        proof {
            if (line as int) < line_count(t) {
                lemma_line_start(t, line as nat);
                lemma_line_start_boundary(t, (line + 1) as nat);
            }
            vstd::utf8::is_char_boundary_start_end_of_seq(t);
        }
        let line_end = line_start + line_len;
        let cursor_in_line = idx.saturating_sub(line_start);
        if cursor_in_line < 1 {
            return;
        }
        let hi = if cursor_in_line < line_len {
            line_start + cursor_in_line
        } else {
            line_end
        };
        match self.find_last_begin(line_start, hi) {
            Some(p) => {
                let env_start = p + 7;
                let env_end = self.find_first_brace(env_start, line_end);
                if env_end > env_start {
                    proof {
                        lemma_last_begin_matches(t, line_start as int, hi as int);
                        assert(t[p + 6] == t.subrange(p as int, p + 7)[6]);
                        crate::text_model::lemma_after_ascii_is_boundary(t, p + 6);
                        if env_end < line_end {
                            assert(char_boundary(t, env_end as int));
                        } else if (line as int) < line_count(t) {
                            assert(char_boundary(t, env_end as int));
                        }
                    }
                    let env = self.buffer.text_between(env_start, env_end);
                    let mut g = String::from_str("\\end{");
                    g.append(env.as_str());
                    g.append("}");
                    proof {
                        reveal_strlit("\\end{");
                        reveal_strlit("}");
                        let a = "\\end{"@;
                        let c = "}"@;
                        assert(is_ascii_chars(a));
                        assert(is_ascii_chars(c));
                        lemma_encode_ascii(a);
                        lemma_encode_ascii(c);
                        assert(encode_utf8(a) =~= end_open_bytes());
                        assert(encode_utf8(c) =~= seq![125u8]);
                        lemma_encode_concat(a, env@);
                        lemma_encode_concat(a + env@, c);
                    }
                    self.ghost_text = Some(g);
                }
            },
            None => {},
        }
    }

    /// Type a character at the cursor: braces, parentheses and `$` are
    /// closed automatically, a `}` in front of an existing `}` steps over
    /// it, and after a `}` the environment opened on the line is offered
    /// as ghost text.
    #[verifier::spinoff_prover]
    #[verifier::rlimit(40)]
    pub fn insert_char(&mut self, c: char)
        requires
            old(self).wf(),
            old(self).cursor_ok(),
        ensures
            insert_char_post(old(self), final(self), c),
    {
        let ghost t = self.buffer@;
        let cursor_before = self.cursor;
        let idx = self.cursor_byte();
        let total = self.buffer.len_bytes();
        // Smart close: skip over an existing closing brace
        if c == '}' && idx < total && self.buffer.byte_at(idx) == 125u8 {
            self.cursor.col = self.cursor.col + 1;
            self.ghost_check(idx);
            return;
        }
        let s = char_to_string(c);
        self.buffer.insert(idx, s.as_str());
        let ghost t1 = self.buffer@;
        let _ = self.buffer.len_bytes();
        proof {
            assert(encode_utf8(seq![c]).len() >= 1) by {
                reveal_with_fuel(encode_utf8, 2);
            }
        }
        self.cursor.col = self.cursor.col + 1;
        // Auto-close braces
        if c == '{' || c == '(' || c == '$' {
            proof {
                assert(is_ascii_chars(seq![c]));
                lemma_encode_ascii(seq![c]);
                assert(t1[idx as int] == c as u8);
                crate::text_model::lemma_after_ascii_is_boundary(t1, idx as int);
            }
        }
        // The record of the keystroke holds the closing character too, so
        // that one undo takes back both.
        let mut inserted = s;
        if c == '{' {
            self.buffer.insert(idx + 1, "}");
            proof { lemma_literal_bytes_close_brace(); }
            inserted.append("}");
        } else if c == '(' {
            self.buffer.insert(idx + 1, ")");
            proof { lemma_literal_bytes_close_paren(); }
            inserted.append(")");
        } else if c == '$' {
            if idx > 0 && self.buffer.byte_at(idx - 1) == 36u8 {
                // Already have $$, do nothing
            } else {
                self.buffer.insert(idx + 1, "$");
                proof { lemma_literal_bytes_dollar(); }
                inserted.append("$");
            }
        } else if c == '}' {
            self.ghost_check(idx);
        } else {
            self.ghost_text = None;
        }
        assert(inserted@ == typed_text(c, t, idx as int));
        self.history.push(
            Edit {
                byte_idx: idx,
                deleted: String::new(),
                inserted,
                cursor_before,
                cursor_after: self.cursor,
            },
        );
    }
}

proof fn lemma_last_begin_matches(t: Seq<u8>, lo: int, hi: int)
    ensures
        last_begin(t, lo, hi) matches Some(p) ==> is_begin_at(t, p),
    decreases hi - lo,
{
    if hi - lo >= 7 && !is_begin_at(t, hi - 7) {
        lemma_last_begin_matches(t, lo, hi - 1);
    }
}

proof fn lemma_literal_bytes_close_brace()
    ensures
        encode_utf8("}"@) == seq![125u8],
        "}"@ == seq!['}'],
{
    reveal_strlit("}");
    assert(is_ascii_chars("}"@));
    lemma_encode_ascii("}"@);
    assert(encode_utf8("}"@) =~= seq![125u8]);
}

proof fn lemma_literal_bytes_close_paren()
    ensures
        encode_utf8(")"@) == seq![41u8],
        ")"@ == seq![')'],
{
    reveal_strlit(")");
    assert(is_ascii_chars(")"@));
    lemma_encode_ascii(")"@);
    assert(encode_utf8(")"@) =~= seq![41u8]);
}

proof fn lemma_literal_bytes_dollar()
    ensures
        encode_utf8("$"@) == seq![36u8],
        "$"@ == seq!['$'],
{
    reveal_strlit("$");
    assert(is_ascii_chars("$"@));
    lemma_encode_ascii("$"@);
    assert(encode_utf8("$"@) =~= seq![36u8]);
}

/// Number of leading space and tab bytes in `t[from..end)`.
pub open spec fn indent_len(t: Seq<u8>, from: int, end: int) -> nat
    decreases end - from,
{
    if from < end && (t[from] == 32u8 || t[from] == 9u8) {
        1 + indent_len(t, from + 1, end)
    } else {
        0
    }
}

/// The indentation (leading spaces and tabs) of line `l`.
pub open spec fn line_indent(t: Seq<u8>, l: int) -> Seq<u8> {
    let ls = line_byte(t, l);
    t.subrange(ls, ls + indent_len(t, ls, ls + line_len_or_zero(t, l)))
}

proof fn lemma_literal_bytes_newline()
    ensures
        encode_utf8("\n"@) == seq![10u8],
        "\n"@ == seq!['\n'],
{
    reveal_strlit("\n");
    assert(is_ascii_chars("\n"@));
    lemma_encode_ascii("\n"@);
    assert(encode_utf8("\n"@) =~= seq![10u8]);
}

proof fn lemma_line_byte_boundary(t: Seq<u8>, l: int)
    requires
        valid_utf8(t),
    ensures
        char_boundary(t, line_byte(t, l)),
{
    if 0 <= l < line_count(t) {
        lemma_line_start_boundary(t, l as nat);
    } else {
        vstd::utf8::is_char_boundary_start_end_of_seq(t);
    }
}

proof fn lemma_line_extent(t: Seq<u8>, l: int)
    ensures
        0 <= line_byte(t, l) <= line_byte(t, l) + line_len_or_zero(t, l) <= t.len(),
{
    if 0 <= l < line_count(t) {
        lemma_line_start(t, l as nat);
    }
}

/// The text decoded from bytes `[a, b)`.
pub open spec fn text_of(t: Seq<u8>, a: int, b: int) -> Seq<char> {
    vstd::utf8::decode_utf8(t.subrange(a, b))
}

impl App {
    /// The indentation of the cursor's line.
    fn current_line_indent(&self) -> (s: String)
        requires
            self.buffer.wf(),
        ensures
            encode_utf8(s@) == line_indent(self.buffer@, self.cursor.line as int),
    {
        let ghost t = self.buffer@;
        let ghost l = self.cursor.line as int;
        let ls = self.buffer.line_to_byte(self.cursor.line);
        let len = self.buffer.line_len_bytes(self.cursor.line);
        let _ = self.buffer.len_bytes();
        proof {
            lemma_line_extent(t, l);
            lemma_line_byte_boundary(t, l);
        }
        let le = ls + len;
        let mut k: usize = 0;
        while ls + k < le && (self.buffer.byte_at(ls + k) == 32u8 || self.buffer.byte_at(ls + k)
            == 9u8)
            invariant
                t == self.buffer@,
                valid_utf8(t),
                ls as int == line_byte(t, l),
                le as int == ls + line_len_or_zero(t, l),
                le <= t.len(),
                ls + k <= le,
                indent_len(t, ls as int, le as int) == k + indent_len(t, ls + k, le as int),
                char_boundary(t, ls + k),
            decreases le - (ls + k),
        {
            proof {
                crate::text_model::lemma_after_ascii_is_boundary(t, ls + k);
            }
            k += 1;
        }
        self.buffer.text_between(ls, ls + k)
    }

    /// Break the line at the cursor, carrying the line's indentation over to
    /// the new line.
    pub fn insert_newline(&mut self)
        requires
            old(self).wf(),
            old(self).cursor_ok(),
            old(self).cursor.line < usize::MAX,
        ensures
            insert_newline_post(old(self), final(self)),
    {
        let cursor_before = self.cursor;
        let idx = self.cursor_byte();
        let indent = self.current_line_indent();
        proof {
            lemma_literal_bytes_newline();
            vstd::utf8::encode_utf8_decode_utf8(indent@);
        }
        self.buffer.insert(idx, "\n");
        self.cursor.line = self.cursor.line + 1;
        self.cursor.col = 0;
        let mut inserted = String::from_str("\n");
        let n = indent.as_str().as_bytes().len();
        if n > 0 {
            proof {
                lemma_line_byte_boundary(self.buffer@, self.cursor.line as int);
            }
            let p = self.cursor_byte();
            self.buffer.insert(p, indent.as_str());
            self.cursor.col = n;
            inserted.append(indent.as_str());
        }
        self.history.push(
            Edit {
                byte_idx: idx,
                deleted: String::new(),
                inserted,
                cursor_before,
                cursor_after: self.cursor,
            },
        );
    }

    /// Delete the byte before the cursor; at the start of a line this joins
    /// it to the previous one.
    pub fn backspace(&mut self)
        requires
            old(self).wf(),
            old(self).cursor_ok(),
            old(self).cursor_pos() > 0 ==> char_boundary(
                old(self).buffer@,
                old(self).cursor_pos() - 1,
            ),
        ensures
            backspace_post(old(self), final(self)),
    {
        let cursor_before = self.cursor;
        let idx = self.cursor_byte();
        if idx > 0 {
            let ghost t = self.buffer@;
            let prev_byte = idx - 1;
            let deleted = self.buffer.text_between(prev_byte, idx);
            proof {
                vstd::utf8::encode_utf8_decode_utf8(deleted@);
            }
            if self.buffer.byte_at(prev_byte) == 10u8 {
                let cur_line = self.cursor.line;
                let prev_line = cur_line.saturating_sub(1);
                let prev_line_len = self.buffer.line_len_bytes(prev_line);
                self.buffer.remove(prev_byte, idx);
                self.cursor.line = prev_line;
                self.cursor.col = prev_line_len.saturating_sub(1);
                self.history.push(
                    Edit {
                        byte_idx: prev_byte,
                        deleted,
                        inserted: String::new(),
                        cursor_before,
                        cursor_after: self.cursor,
                    },
                );
            } else {
                self.buffer.remove(prev_byte, idx);
                if self.cursor.col > 0 {
                    self.cursor.col = self.cursor.col - 1;
                }
                self.history.push(
                    Edit {
                        byte_idx: prev_byte,
                        deleted,
                        inserted: String::new(),
                        cursor_before,
                        cursor_after: self.cursor,
                    },
                );
            }
        }
    }

    /// Delete the byte at the cursor.
    pub fn delete(&mut self)
        requires
            old(self).wf(),
            old(self).cursor_ok(),
            old(self).cursor_pos() < old(self).buffer@.len() ==> char_boundary(
                old(self).buffer@,
                old(self).cursor_pos() + 1,
            ),
        ensures
            delete_post(old(self), final(self)),
    {
        let cursor_before = self.cursor;
        let idx = self.cursor_byte();
        let total = self.buffer.len_bytes();
        if idx < total {
            let end = idx + 1;
            let deleted = self.buffer.text_between(idx, end);
            proof {
                vstd::utf8::encode_utf8_decode_utf8(deleted@);
            }
            self.buffer.remove(idx, end);
            self.history.push(
                Edit {
                    byte_idx: idx,
                    deleted,
                    inserted: String::new(),
                    cursor_before,
                    cursor_after: self.cursor,
                },
            );
        }
    }
}

/// An edit can be reverted on `t`: the byte ranges it touches start and end
/// on character boundaries.
pub open spec fn edit_revertible(t: Seq<u8>, e: EditView) -> bool {
    let i = e.byte_idx as int;
    &&& (byte_len(e.inserted) > 0 || byte_len(e.deleted) > 0) ==> char_boundary(t, i)
    &&& byte_len(e.inserted) > 0 ==> char_boundary(t, i + byte_len(e.inserted))
}

/// An edit can be applied again on `t`.
pub open spec fn edit_reapplicable(t: Seq<u8>, e: EditView) -> bool {
    let i = e.byte_idx as int;
    &&& (byte_len(e.inserted) > 0 || byte_len(e.deleted) > 0) ==> char_boundary(t, i)
    &&& byte_len(e.deleted) > 0 ==> char_boundary(t, i + byte_len(e.deleted))
}

pub open spec fn is_noop_edit(e: EditView) -> bool {
    byte_len(e.inserted) == 0 && byte_len(e.deleted) == 0
}

impl App {
    /// The next undo can be carried out on the current text.
    pub open spec fn undo_ok(&self) -> bool {
        match spec_undo(self.history@).1 {
            Some(e) => edit_revertible(self.buffer@, e),
            None => true,
        }
    }

    /// The next redo can be carried out on the current text.
    pub open spec fn redo_ok(&self) -> bool {
        match spec_redo(self.history@).1 {
            Some(e) => edit_reapplicable(self.buffer@, e),
            None => true,
        }
    }

    pub(crate) fn is_boundary(&self, i: usize) -> (b: bool)
        ensures
            b == char_boundary(self.buffer@, i as int),
    {
        let len = self.buffer.len_bytes();
        if i > len {
            return false;
        }
        if i == len {
            return true;
        }
        let b = self.buffer.byte_at(i);
        !(0x80u8 <= b && b <= 0xbfu8)
    }

    /// Whether the next undo can be carried out on the current text.
    pub fn undo_is_applicable(&self) -> (b: bool)
        requires
            self.wf(),
        ensures
            b == self.undo_ok(),
    {
        let _ = self.buffer.len_bytes();
        match self.history.peek_undo() {
            Some(e) => {
                let i = e.byte_idx;
                let ni = e.inserted.as_str().as_bytes().len();
                let nd = e.deleted.as_str().as_bytes().len();
                if (ni > 0 || nd > 0) && !self.is_boundary(i) {
                    return false;
                }
                if ni > 0 {
                    if i > usize::MAX - ni {
                        return false;
                    }
                    return self.is_boundary(i + ni);
                }
                true
            },
            None => true,
        }
    }

    /// Whether the next redo can be carried out on the current text.
    pub fn redo_is_applicable(&self) -> (b: bool)
        requires
            self.wf(),
        ensures
            b == self.redo_ok(),
    {
        let _ = self.buffer.len_bytes();
        match self.history.peek_redo() {
            Some(e) => {
                let i = e.byte_idx;
                let ni = e.inserted.as_str().as_bytes().len();
                let nd = e.deleted.as_str().as_bytes().len();
                if (ni > 0 || nd > 0) && !self.is_boundary(i) {
                    return false;
                }
                if nd > 0 {
                    if i > usize::MAX - nd {
                        return false;
                    }
                    return self.is_boundary(i + nd);
                }
                true
            },
            None => true,
        }
    }

    /// Undo the last edit: its inserted text is removed, its deleted text
    /// restored, and the cursor put back where it was before the edit.
    pub fn undo(&mut self)
        requires
            old(self).wf(),
            old(self).undo_ok(),
        ensures
            undo_post(old(self), final(self)),
    {
        match self.history.undo() {
            Some(edit) => {
                let ghost t = self.buffer@;
                let ni = edit.inserted.as_str().as_bytes().len();
                let nd = edit.deleted.as_str().as_bytes().len();
                let _ = self.buffer.len_bytes();
                // Reverse: remove inserted, restore deleted
                if ni > 0 {
                    let end = edit.byte_idx + ni;
                    self.buffer.remove(edit.byte_idx, end);
                }
                let ghost t1 = self.buffer@;
                if nd > 0 {
                    proof {
                        if ni > 0 {
                            assert(t1 == splice_remove(t, edit.byte_idx as int, edit.byte_idx + ni));
                            if edit.byte_idx + ni < t.len() {
                                assert(t1[edit.byte_idx as int] == t[edit.byte_idx + ni]);
                            }
                        }
                    }
                    self.buffer.insert(edit.byte_idx, edit.deleted.as_str());
                }
                proof {
                    let e = edit@;
                    if !is_noop_edit(e) {
                        assert(self.buffer@ =~= revert_edit(t, e));
                    }
                }
                self.cursor = edit.cursor_before;
                self.ensure_cursor_visible();
                self.buffer.set_modified(true);
                self.set_message("Undo");

            },
            None => {
                self.set_message("Nothing to undo");
            },
        }
    }

    /// Redo the last undone edit: its deleted text is removed again, its
    /// inserted text restored, and the cursor put where the edit left it.
    pub fn redo(&mut self)
        requires
            old(self).wf(),
            old(self).redo_ok(),
        ensures
            redo_post(old(self), final(self)),
    {
        match self.history.redo() {
            Some(edit) => {
                let ghost t = self.buffer@;
                let ni = edit.inserted.as_str().as_bytes().len();
                let nd = edit.deleted.as_str().as_bytes().len();
                let _ = self.buffer.len_bytes();
                // Apply forward: remove deleted, restore inserted
                if nd > 0 {
                    let end = edit.byte_idx + nd;
                    self.buffer.remove(edit.byte_idx, end);
                }
                let ghost t1 = self.buffer@;
                if ni > 0 {
                    proof {
                        if nd > 0 {
                            assert(t1 == splice_remove(t, edit.byte_idx as int, edit.byte_idx + nd));
                            if edit.byte_idx + nd < t.len() {
                                assert(t1[edit.byte_idx as int] == t[edit.byte_idx + nd]);
                            }
                        }
                    }
                    self.buffer.insert(edit.byte_idx, edit.inserted.as_str());
                }
                proof {
                    let e = edit@;
                    if !is_noop_edit(e) {
                        assert(self.buffer@ =~= apply_edit(t, e));
                    }
                }
                self.cursor = edit.cursor_after;
                self.ensure_cursor_visible();
                self.buffer.set_modified(true);
                self.set_message("Redo");
            },
            None => {
                self.set_message("Nothing to redo");
            },
        }
    }
}

// ---------------------------------------------------------------------------
// Laws of editing and undoing
/// Reverting an edit right after applying it gives back the text, provided
/// the edit's deleted text is what the text held at its position.
pub proof fn law_revert_after_apply(t: Seq<u8>, e: EditView)
    requires
        e.byte_idx + byte_len(e.deleted) <= t.len(),
        t.subrange(e.byte_idx as int, e.byte_idx + byte_len(e.deleted)) == encode_utf8(e.deleted),
    ensures
        revert_edit(apply_edit(t, e), e) == t,
{
    let i = e.byte_idx as int;
    let a = apply_edit(t, e);
    let ins = encode_utf8(e.inserted);
    let del = encode_utf8(e.deleted);
    assert(a.subrange(0, i) =~= t.subrange(0, i));
    assert(a.subrange(i + ins.len(), a.len() as int) =~= t.subrange(i + del.len(), t.len() as int));
    assert(revert_edit(a, e) =~= t);
}

/// Applying an edit right after reverting it gives back the text, provided
/// the edit's inserted text is what the text held at its position.
pub proof fn law_apply_after_revert(t: Seq<u8>, e: EditView)
    requires
        e.byte_idx + byte_len(e.inserted) <= t.len(),
        t.subrange(e.byte_idx as int, e.byte_idx + byte_len(e.inserted)) == encode_utf8(
            e.inserted,
        ),
    ensures
        apply_edit(revert_edit(t, e), e) == t,
{
    let i = e.byte_idx as int;
    let r = revert_edit(t, e);
    let ins = encode_utf8(e.inserted);
    let del = encode_utf8(e.deleted);
    assert(r.subrange(0, i) =~= t.subrange(0, i));
    assert(r.subrange(i + del.len(), r.len() as int) =~= t.subrange(i + ins.len(), t.len() as int));
    assert(apply_edit(r, e) =~= t);
}

/// A recorded insertion of more than one byte (a paste, a newline with
/// indentation, a tab) is undone in one step: the undo right after it
/// hands out exactly that edit, and reverting it gives back the text from
/// before the insertion.
pub proof fn law_undo_reverts_insertion(
    t: Seq<u8>,
    h: crate::history::HistoryState,
    i: int,
    s: Seq<char>,
    before: Cursor,
    after: Cursor,
)
    requires
        crate::history::history_wf(h),
        0 <= i <= t.len(),
        i <= usize::MAX,
        byte_len(s) > 1,
    ensures
        ({
            let e = insertion_edit(i, s, before, after);
            &&& spec_undo(crate::history::spec_push(h, e)).1 == Some(e)
            &&& splice_insert(t, i, encode_utf8(s)) == apply_edit(t, e)
            &&& revert_edit(apply_edit(t, e), e) == t
        }),
{
    let e = insertion_edit(i, s, before, after);
    assert(encode_utf8(e.deleted) =~= Seq::<u8>::empty()) by {
        assert(e.deleted =~= Seq::<char>::empty());
    }
    assert(splice_insert(t, i, encode_utf8(s)) =~= apply_edit(t, e));
    assert(t.subrange(i, i) =~= encode_utf8(e.deleted));
    law_revert_after_apply(t, e);
}

/// Two single-character insertions typed one after the other form one
/// edit: applying the merged edit is applying both in turn.
pub proof fn law_typing_merges(t: Seq<u8>, e1: EditView, e2: EditView)
    requires
        e1.deleted.len() == 0,
        e2.deleted.len() == 0,
        crate::history::coalesces(e1, e2),
        e1.byte_idx <= t.len(),
    ensures
        apply_edit(apply_edit(t, e1), e2) == apply_edit(t, crate::history::merge(e1, e2)),
{
    let m = crate::history::merge(e1, e2);
    assert(encode_utf8(e1.deleted) =~= Seq::<u8>::empty()) by {
        assert(e1.deleted =~= Seq::<char>::empty());
    }
    assert(encode_utf8(e2.deleted) =~= Seq::<u8>::empty()) by {
        assert(e2.deleted =~= Seq::<char>::empty());
    }
    crate::text_model::lemma_encode_concat(e1.inserted, e2.inserted);
    let a1 = apply_edit(t, e1);
    assert(apply_edit(a1, e2) =~= apply_edit(t, m));
}

/// Undo followed by redo gives back the text and the history, when the
/// text holds the undone edit's inserted text where the edit was made.
pub proof fn law_redo_after_undo(a: &App, b: &App, c: &App)
    requires
        a.wf(),
        spec_undo(a.history@).1 is Some,
        ({
            let e = spec_undo(a.history@).1->0;
            &&& e.byte_idx + byte_len(e.inserted) <= a.buffer@.len()
            &&& a.buffer@.subrange(e.byte_idx as int, e.byte_idx + byte_len(e.inserted))
                == encode_utf8(e.inserted)
        }),
        undo_post(a, b),
        redo_post(b, c),
    ensures
        c.buffer@ == a.buffer@,
        c.history@ == a.history@,
{
    let e = spec_undo(a.history@).1->0;
    crate::history::law_redo_undoes_undo(a.history@);
    if !is_noop_edit(e) {
        law_apply_after_revert(a.buffer@, e);
    }
}

/// Number of LF bytes in `b`.
pub open spec fn count_lf(b: Seq<u8>) -> nat
    decreases b.len(),
{
    if b.len() == 0 {
        0
    } else {
        count_lf(b.drop_last()) + (if b.last() == 10u8 {
            1nat
        } else {
            0nat
        })
    }
}

/// Index of the last LF byte of `b`, or -1.
pub open spec fn last_lf(b: Seq<u8>) -> int
    decreases b.len(),
{
    if b.len() == 0 {
        -1
    } else if b.last() == 10u8 {
        b.len() - 1
    } else {
        last_lf(b.drop_last())
    }
}

/// Where the cursor lands after pasting bytes `b` at cursor `c`: past the
/// pasted text, on the line of its last line break when it has one.
pub open spec fn cursor_after_paste(c: Cursor, b: Seq<u8>) -> Cursor {
    if count_lf(b) > 0 {
        Cursor { line: (c.line + count_lf(b)) as usize, col: (b.len() - (last_lf(b) + 1)) as usize, ..c }
    } else {
        Cursor { col: (c.col + b.len()) as usize, ..c }
    }
}

proof fn lemma_lf_facts(b: Seq<u8>, i: int)
    requires
        0 <= i <= b.len(),
    ensures
        count_lf(b.take(i)) <= i,
        -1 <= last_lf(b.take(i)) < i,
        count_lf(b.take(i)) == 0 <==> last_lf(b.take(i)) == -1,
    decreases i,
{
    if i > 0 {
        lemma_lf_facts(b, i - 1);
        assert(b.take(i).drop_last() =~= b.take(i - 1));
    }
}

impl App {
    /// Whether pasting `text` keeps the cursor's line number in range.
    pub open spec fn paste_fits(&self, text: Seq<char>) -> bool {
        self.cursor.line + count_lf(encode_utf8(text)) <= usize::MAX
    }

    /// Insert pasted text at the cursor as one undoable edit and move the
    /// cursor past it.
    fn insert_pasted(&mut self, text: String)
        requires
            old(self).wf(),
            old(self).cursor_ok(),
            old(self).paste_fits(text@),
        ensures
            final(self).wf(),
            ({
                let t = old(self).buffer@;
                let p = old(self).cursor_pos();
                let b = encode_utf8(text@);
                let after = cursor_after_paste(old(self).cursor, b);
                &&& final(self).buffer@ == splice_insert(t, p, b)
                &&& final(self).cursor == after
                &&& final(self).history@ == crate::history::spec_push_step(
                    old(self).history@,
                    insertion_edit(p, text@, old(self).cursor, after),
                )
                &&& (final(self).scroll.line as int, final(self).scroll.col as int) == old(self).settled_scroll(after, final(self).buffer@)
            }),
            final(self).buffer.spec_modified(),
            final(self).buffer.spec_path() == old(self).buffer.spec_path(),
            final(self).message@ == "Pasted"@,
            final(self).message_fresh,
            final(self).clipboard == old(self).clipboard,
            final(self).ghost_text == old(self).ghost_text,
            same_settings(final(self), old(self)),
    {
        let cursor_before = self.cursor;
        let idx = self.cursor_byte();
        self.buffer.insert(idx, text.as_str());
        let _ = self.buffer.len_bytes();
        let bytes = text.as_str().as_bytes();
        let n = bytes.len();
        let ghost b = bytes@;
        let mut i: usize = 0;
        let mut newline_count: usize = 0;
        let mut last: usize = 0;
        let mut seen = false;
        while i < n
            invariant
                i <= n,
                n == b.len(),
                b == bytes@,
                newline_count == count_lf(b.take(i as int)),
                seen == (count_lf(b.take(i as int)) > 0),
                seen ==> last as int == last_lf(b.take(i as int)),
            decreases n - i,
        {
            proof {
                lemma_lf_facts(b, i as int);
                assert(b.take(i + 1).drop_last() =~= b.take(i as int));
            }
            if bytes[i] == 10u8 {
                newline_count += 1;
                last = i;
                seen = true;
            }
            i += 1;
        }
        proof {
            assert(b.take(n as int) =~= b);
            lemma_lf_facts(b, n as int);
        }
        if newline_count > 0 {
            self.cursor.line = self.cursor.line + newline_count;
            self.cursor.col = n - (last + 1);
        } else {
            self.cursor.col = self.cursor.col + n;
        }
        self.ensure_cursor_visible();
        self.history.push_step(
            Edit {
                byte_idx: idx,
                deleted: String::new(),
                inserted: text,
                cursor_before,
                cursor_after: self.cursor,
            },
        );
        self.set_message("Pasted");
    }

    /// Paste the system clipboard's text when it has some, else the
    /// editor's own clipboard.
    pub fn paste(&mut self, system_text: Option<String>)
        requires
            old(self).wf(),
            old(self).cursor_ok(),
            old(self).paste_fits(
                match system_text {
                    Some(s) => if s@.len() > 0 {
                        s@
                    } else {
                        old(self).clipboard@
                    },
                    None => old(self).clipboard@,
                },
            ),
        ensures
            paste_post(old(self), final(self), system_text),
    {
        // Try the system clipboard first, fall back to the internal one
        let text = match system_text {
            Some(s) => if s.as_str().is_empty() {
                self.clipboard.clone()
            } else {
                s
            },
            None => self.clipboard.clone(),
        };
        if text.as_str().is_empty() {
            self.set_message("Nothing to paste");
            return ;
        }
        self.clipboard = text.clone();
        self.insert_pasted(text);
    }

    /// Insert text that the terminal delivered as a bracketed paste.
    pub fn paste_received(&mut self, text: String)
        requires
            old(self).wf(),
            old(self).cursor_ok(),
            old(self).paste_fits(text@),
        ensures
            paste_received_post(old(self), final(self), text),
    {
        if text.as_str().is_empty() {
            return ;
        }
        self.insert_pasted(text);
    }
}

/// Undoing right after a keystroke that inserted its closing character
/// too (`{}`, `()`, `$$`) gives back the text and the cursor from before
/// the keystroke: both characters are one undo step.
pub proof fn law_undo_after_auto_close(pre: &App, mid: &App, post: &App, c: char)
    requires
        pre.wf(),
        pre.cursor_ok(),
        pre.cursor_pos() <= usize::MAX,
        typed_text(c, pre.buffer@, pre.cursor_pos()).len() == 2,
        insert_char_post(pre, mid, c),
        undo_post(mid, post),
    ensures
        post.buffer@ == pre.buffer@,
        post.cursor == pre.cursor,
{
    let t = pre.buffer@;
    let p = pre.cursor_pos();
    let s = typed_text(c, t, p);
    let e = insertion_edit(p, s, pre.cursor, mid.cursor);
    assert(is_ascii_chars(s));
    lemma_encode_ascii(s);
    lemma_encode_ascii(seq![c]);
    let closer: u8 = if c == '{' {
        125u8
    } else if c == '(' {
        41u8
    } else {
        36u8
    };
    assert(encode_utf8(s) =~= char_bytes(c) + seq![closer]);
    crate::history::law_multi_byte_edit_is_own_step(pre.history@, e);
    assert(encode_utf8(e.deleted) =~= Seq::<u8>::empty()) by {
        assert(e.deleted =~= Seq::<char>::empty());
    }
    assert(mid.buffer@ =~= apply_edit(t, e));
    assert(t.subrange(p, p) =~= encode_utf8(e.deleted));
    law_revert_after_apply(t, e);
}

/// A position just after a line break, or the start, is where the line
/// it is on starts.
proof fn lemma_line_start_at(t: Seq<u8>, x: int)
    requires
        0 <= x <= t.len(),
        x == 0 || crate::text_model::is_break_end(t, x - 1),
    ensures
        breaks_before(t, x) < line_count(t),
        line_start(t, breaks_before(t, x)) == x,
{
    crate::text_model::lemma_line_of_byte(t, x);
    let l = breaks_before(t, x);
    lemma_line_start(t, l);
    let a = line_start(t, l);
    if a < x {
        crate::text_model::lemma_breaks_before_strict(t, a, x - 1, x);
    }
}

/// Inserting `b` at `p`, where no CR ends the text before `p`, leaves the
/// line breaks before `p` as they were.
proof fn lemma_insert_keeps_prefix_breaks(t: Seq<u8>, p: int, b: Seq<u8>, i: int)
    requires
        0 <= i <= p <= t.len(),
        !(p > 0 && t[p - 1] == 13u8),
    ensures
        breaks_before(splice_insert(t, p, b), i) == breaks_before(t, i),
        i > 0 ==> (crate::text_model::is_break_end(splice_insert(t, p, b), i - 1)
            == crate::text_model::is_break_end(t, i - 1)),
    decreases i,
{
    let t2 = splice_insert(t, p, b);
    if i > 0 {
        lemma_insert_keeps_prefix_breaks(t, p, b, i - 1);
        assert(t2[i - 1] == t[i - 1]);
        if i < p {
            assert(t2[i] == t[i]);
        }
    }
}

/// Inserting `b`, which holds no CR, at `p`, where no CR ends the text
/// before `p`: the breaks before a position in the inserted text are those
/// before `p` and the LFs of `b` up to there.
proof fn lemma_insert_breaks_in_text(t: Seq<u8>, p: int, b: Seq<u8>, m: int)
    requires
        0 <= p <= t.len(),
        0 <= m <= b.len(),
        !(p > 0 && t[p - 1] == 13u8),
        forall|j: int| 0 <= j < b.len() ==> b[j] != 13u8,
    ensures
        breaks_before(splice_insert(t, p, b), p + m) == breaks_before(t, p) + count_lf(b.take(m)),
    decreases m,
{
    let t2 = splice_insert(t, p, b);
    if m == 0 {
        lemma_insert_keeps_prefix_breaks(t, p, b, p);
        assert(b.take(0) =~= Seq::<u8>::empty());
    } else {
        lemma_insert_breaks_in_text(t, p, b, m - 1);
        assert(b.take(m).drop_last() =~= b.take(m - 1));
        assert(t2[p + m - 1] == b[m - 1]);
    }
}

/// There are no more line breaks before `i` than bytes.
proof fn lemma_breaks_below(t: Seq<u8>, i: int)
    requires
        0 <= i,
    ensures
        breaks_before(t, i) <= i,
    decreases i,
{
    if i > 0 {
        lemma_breaks_below(t, i - 1);
    }
}

/// The last LF of `b`, when there is one, is an LF, and every LF of `b`
/// comes up to it.
proof fn lemma_last_lf(b: Seq<u8>)
    ensures
        last_lf(b) >= 0 ==> b[last_lf(b)] == 10u8 && count_lf(b.take(last_lf(b) + 1))
            == count_lf(b),
        last_lf(b) == -1 <==> count_lf(b) == 0,
        -1 <= last_lf(b) < b.len(),
    decreases b.len(),
{
    if b.len() > 0 {
        lemma_last_lf(b.drop_last());
        if b.last() == 10u8 {
            assert(b.take(b.len() as int) =~= b);
        } else if last_lf(b) >= 0 {
            assert(b.take(last_lf(b) + 1) =~= b.drop_last().take(last_lf(b) + 1));
        }
    }
}

/// A paste of text that holds no CR leaves the cursor right after the
/// pasted text, at byte `p + len` where it was at byte `p`, when no CR ends
/// the text before the cursor (a CR there would join with a leading LF).
pub proof fn law_paste_leaves_cursor_after_text(pre: &App, mid: &App, text: String)
    requires
        pre.wf(),
        crate::cursor::cursor_in_text(pre.cursor, pre.buffer@),
        pre.cursor_ok(),
        !(pre.cursor_pos() > 0 && pre.buffer@[pre.cursor_pos() - 1] == 13u8),
        forall|j: int|
            0 <= j < encode_utf8(text@).len() ==> #[trigger] encode_utf8(text@)[j] != 13u8,
        pre.buffer@.len() + byte_len(text@) <= usize::MAX,
        paste_received_post(pre, mid, text),
    ensures
        mid.cursor_pos() == pre.cursor_pos() + byte_len(text@),
{
    let t = pre.buffer@;
    let c = pre.cursor;
    let p = pre.cursor_pos();
    let b = encode_utf8(text@);
    if text@.len() == 0 {
        assert(text@ =~= Seq::<char>::empty());
        assert(b =~= Seq::<u8>::empty());
        return;
    }
    let t2 = splice_insert(t, p, b);
    let l = c.line as int;
    lemma_line_start(t, l as nat);
    let ls = line_start(t, l as nat);
    // the cursor's byte is on the cursor's line
    assert(breaks_before(t, p) == l) by {
        assert(forall|j: int| ls <= j < p ==> !crate::text_model::is_break_end(t, j)) by {
            assert forall|j: int| ls <= j < p implies !crate::text_model::is_break_end(t, j) by {
                if crate::text_model::is_break_end(t, j) {
                    if l + 1 < line_count(t) {
                        if j == line_start(t, (l + 1) as nat) - 2 {
                            assert(t[j] == 13u8);
                        }
                    } else {
                        crate::text_model::lemma_breaks_before_strict(t, ls, j, t.len() as int);
                    }
                }
            }
        }
        crate::text_model::lemma_breaks_before_flat(t, ls, p);
    }
    lemma_last_lf(b);
    let k = count_lf(b);
    lemma_lf_facts(b, b.len() as int);
    assert(b.take(b.len() as int) =~= b);
    lemma_breaks_below(t, p);
    assert(mid.buffer@ == t2);
    if k > 0 {
        let x = p + last_lf(b) + 1;
        lemma_insert_breaks_in_text(t, p, b, last_lf(b) + 1);
        assert(t2[x - 1] == b[last_lf(b)]);
        lemma_line_start_at(t2, x);
        assert(mid.cursor.line == l + k);
        assert(line_byte(t2, l + k) == x);
    } else {
        lemma_insert_keeps_prefix_breaks(t, p, b, ls);
        if ls > 0 {
            assert(l > 0);
        }
        lemma_line_start_at(t2, ls);
    }
}

/// Removing bytes `[a, b)` leaves the line breaks before `i <= a` as they
/// were, unless a CR just before `a` meets an LF after the removed bytes.
proof fn lemma_remove_keeps_prefix_breaks(t: Seq<u8>, a: int, b: int, i: int)
    requires
        0 <= i <= a <= b <= t.len(),
        i == a && a > 0 && t[a - 1] == 13u8 ==> ((a < t.len() && t[a] == 10u8) == (b < t.len()
            && t[b] == 10u8)),
    ensures
        breaks_before(splice_remove(t, a, b), i) == breaks_before(t, i),
        i > 0 ==> (crate::text_model::is_break_end(splice_remove(t, a, b), i - 1)
            == crate::text_model::is_break_end(t, i - 1)),
    decreases i,
{
    let t2 = splice_remove(t, a, b);
    if i > 0 {
        if i - 1 > 0 {
            lemma_remove_keeps_prefix_breaks(t, a, b, i - 1);
        }
        assert(t2[i - 1] == t[i - 1]);
        if i < a {
            assert(t2[i] == t[i]);
        } else if b < t.len() {
            assert(t2[i] == t[b]);
        }
    }
}

/// Backspace over a character that is not a line break moves the cursor
/// back by that character: the cursor stays on its line, just after the
/// text before the deleted byte, which is gone. (Where a CR would then
/// meet an LF, the two become one break and the lines shift, so that case
/// is left out.)
pub proof fn law_backspace_steps_back(pre: &App, post: &App)
    requires
        pre.wf(),
        crate::cursor::cursor_in_text(pre.cursor, pre.buffer@),
        pre.cursor_ok(),
        pre.cursor_pos() > 0,
        pre.buffer@[pre.cursor_pos() - 1] != 10u8,
        pre.buffer@[pre.cursor_pos() - 1] != 13u8,
        !(pre.cursor_pos() >= 2 && pre.buffer@[pre.cursor_pos() - 2] == 13u8
            && pre.cursor_pos() < pre.buffer@.len() && pre.buffer@[pre.cursor_pos()] == 10u8),
        backspace_post(pre, post),
    ensures
        post.buffer@ == pre.buffer@.subrange(0, pre.cursor_pos() - 1) + pre.buffer@.subrange(
            pre.cursor_pos(),
            pre.buffer@.len() as int,
        ),
        post.cursor.line == pre.cursor.line,
        post.cursor_pos() == pre.cursor_pos() - 1,
{
    let t = pre.buffer@;
    let p = pre.cursor_pos();
    let l = pre.cursor.line as int;
    let t2 = splice_remove(t, p - 1, p);
    lemma_line_start(t, l as nat);
    let ls = line_start(t, l as nat);
    if pre.cursor.col == 0 {
        if l > 0 {
            assert(crate::text_model::is_break_end(t, p - 1));
        }
    }
    assert(pre.cursor.col > 0);
    lemma_remove_keeps_prefix_breaks(t, p - 1, p, ls);
    lemma_line_start_at(t2, ls);
}

/// The first occurrence of `pat` in `[lo, hi)` is an occurrence, the
/// first there, and there is one whenever `pat` occurs in that range.
proof fn lemma_first_match_is_first(t: Seq<u8>, pat: Seq<u8>, lo: int, hi: int)
    requires
        0 <= lo,
        hi <= t.len(),
    ensures
        first_match(t, pat, lo, hi) matches Some(r) ==> lo <= r && r + pat.len() <= hi
            && matches_at(t, pat, r) && forall|q: int| lo <= q < r ==> !matches_at(t, pat, q),
        (exists|q: int| lo <= q && q + pat.len() <= hi && q < hi && matches_at(t, pat, q))
            ==> first_match(t, pat, lo, hi) is Some,
    decreases hi - lo,
{
    if lo + pat.len() <= hi && lo < hi && !matches_at(t, pat, lo) {
        lemma_first_match_is_first(t, pat, lo + 1, hi);
        if exists|q: int| lo <= q && q + pat.len() <= hi && q < hi && matches_at(t, pat, q) {
            let q = choose|q: int| lo <= q && q + pat.len() <= hi && q < hi && matches_at(t, pat, q);
            assert(q != lo);
            assert(lo + 1 <= q);
        }
    }
}

/// A successful find puts the cursor on an occurrence of the term: the
/// first one at or after the cursor, or, when there is none, the first one
/// before it. A find succeeds whenever the term occurs wholly after or
/// wholly before the cursor.
pub proof fn law_find_lands_on_match(pre: &App, post: &App, term: Seq<char>)
    requires
        pre.buffer@.len() <= usize::MAX,
        pre.cursor_ok(),
        term.len() > 0,
        exists|q: int|
            matches_at(pre.buffer@, encode_utf8(term), q) && (q >= pre.cursor_pos() || q
                + encode_utf8(term).len() <= pre.cursor_pos()),
        find_next_post(pre, post, term),
    ensures
        matches_at(pre.buffer@, encode_utf8(term), post.cursor_pos()),
        post.cursor_pos() >= pre.cursor_pos() ==> forall|q: int|
            pre.cursor_pos() <= q < post.cursor_pos() ==> !matches_at(
                pre.buffer@,
                encode_utf8(term),
                q,
            ),
        post.cursor_pos() < pre.cursor_pos() ==> forall|q: int|
            q >= pre.cursor_pos() ==> !matches_at(pre.buffer@, encode_utf8(term), q),
        post.buffer == pre.buffer,
{
    let t = pre.buffer@;
    let pat = encode_utf8(term);
    let cb = pre.cursor_pos();
    assert(pat.len() > 0) by {
        let q = choose|q: int| matches_at(t, pat, q) && (q >= cb || q + pat.len() <= cb);
        if pat.len() == 0 {
            assert(term =~= Seq::<char>::empty()) by {
                vstd::utf8::encode_utf8_decode_utf8(term);
                assert(pat =~= Seq::<u8>::empty());
            }
        }
    }
    assert(t.len() > 0) by {
        let q = choose|q: int| matches_at(t, pat, q) && (q >= cb || q + pat.len() <= cb);
    }
    lemma_first_match_is_first(t, pat, cb, t.len() as int);
    lemma_first_match_is_first(t, pat, 0, cb);
    let q = choose|q: int| matches_at(t, pat, q) && (q >= cb || q + pat.len() <= cb);
    let fwd = first_match(t, pat, cb, t.len() as int);
    let r = if fwd is Some {
        fwd->0
    } else {
        first_match(t, pat, 0, cb)->0
    };
    if fwd is None {
        if q >= cb {
            assert(q < t.len());
            assert(false);
        }
        assert(first_match(t, pat, 0, cb) is Some);
    }
    assert(matches_at(t, pat, r));
    assert(post.cursor == cursor_at_byte(pre.cursor, t, r));
    crate::text_model::lemma_line_of_byte(t, r);
    lemma_line_start(t, breaks_before(t, r));
    lemma_breaks_below(t, r);
    assert(post.cursor.line as int == breaks_before(t, r));
    assert(line_byte(t, post.cursor.line as int) == line_start(t, breaks_before(t, r)));
    assert(post.buffer@ == t);
    assert(0 <= r - line_start(t, breaks_before(t, r)) <= usize::MAX);
    assert(post.cursor.col as int == r - line_start(t, breaks_before(t, r)));
    assert(post.cursor_pos() == r);
    if fwd is None {
        assert forall|q2: int| q2 >= cb implies !matches_at(t, pat, q2) by {
            if matches_at(t, pat, q2) {
                assert(q2 < t.len());
            }
        }
    }
}

/// A click on screen row `row` of the text area puts the cursor on the
/// line shown on that row, at the text column shown under the click (or
/// the line's end when the line is shorter), drops the selection, and
/// leaves a settled view where it is.
pub proof fn law_click_picks_shown_line(pre: &App, post: &App, col: u16, row: u16)
    requires
        pre.buffer@.len() < usize::MAX,
        row < pre.spec_editor_height(),
        pre.scroll.line + row < line_count(pre.buffer@),
        mouse_click_post(pre, post, col, row),
    ensures
        post.cursor.line == pre.scroll.line + row,
        post.cursor.col <= col_limit(pre.buffer@, pre.scroll.line + row),
        col > pre.spec_gutter_width() && pre.scroll.col + (col - pre.spec_gutter_width())
            <= col_limit(pre.buffer@, pre.scroll.line + row) ==> post.cursor.col == pre.scroll.col + (
        col - pre.spec_gutter_width()),
        !post.cursor.selecting,
        post.cursor.anchor is None,
        post.buffer == pre.buffer,
        ({
            let total = line_count(pre.buffer@) as int;
            let h = pre.spec_editor_height();
            (total > h ==> pre.scroll.line + h <= total) && (total <= h ==> pre.scroll.line == 0)
        }) ==> post.scroll.line == pre.scroll.line,
{
    lemma_breaks_below(pre.buffer@, pre.buffer@.len() as int);
    let buf_line = pre.scroll.line + row;
    assert(buf_line < usize::MAX);
    lemma_line_extent(pre.buffer@, buf_line);
    assert(post.cursor.line as int == buf_line);
}

/// The last `\begin{` found in `[lo, hi)` lies wholly in it.
proof fn lemma_last_begin_bounds(t: Seq<u8>, lo: int, hi: int)
    ensures
        last_begin(t, lo, hi) matches Some(q) ==> lo <= q && q + 7 <= hi && is_begin_at(t, q),
    decreases hi - lo,
{
    if hi - lo >= 7 && !is_begin_at(t, hi - 7) {
        lemma_last_begin_bounds(t, lo, hi - 1);
    }
}

/// No ghost `\end{..}` is offered after a `\begin{` of another line: when
/// no `\begin{` starts on the cursor's line before the cursor, typing `}`
/// leaves the ghost text as it was. (A CR just before the cursor is left
/// out: the typed `}` would split a CR LF break there.)
pub proof fn law_ghost_needs_begin_on_line(pre: &App, post: &App)
    requires
        pre.wf(),
        crate::cursor::cursor_in_text(pre.cursor, pre.buffer@),
        pre.cursor_ok(),
        !(pre.cursor_pos() > 0 && pre.buffer@[pre.cursor_pos() - 1] == 13u8),
        forall|q: int|
            line_byte(pre.buffer@, pre.cursor.line as int) <= q < pre.cursor_pos() ==> !is_begin_at(
                pre.buffer@,
                q,
            ),
        insert_char_post(pre, post, '}'),
    ensures
        post.ghost_text == pre.ghost_text,
{
    let t = pre.buffer@;
    let p = pre.cursor_pos();
    let l = pre.cursor.line as int;
    lemma_line_start(t, l as nat);
    let ls = line_start(t, l as nat);
    let skip = p < t.len() && t[p] == 125u8;
    if skip {
        let le = ls + line_len_or_zero(t, l);
        let ci = if p > ls { p - ls } else { 0 };
        let hi = if ls + ci < le { ls + ci } else { le };
        lemma_last_begin_bounds(t, ls, hi);
    } else {
        let t1 = splice_insert(t, p, char_bytes('}'));
        lemma_insert_keeps_prefix_breaks(t, p, char_bytes('}'), ls);
        lemma_line_start_at(t1, ls);
        assert(line_byte(t1, l) == ls);
        let le = ls + line_len_or_zero(t1, l);
        let ci = if p > ls { p - ls } else { 0 };
        let hi = if ls + ci < le { ls + ci } else { le };
        lemma_last_begin_bounds(t1, ls, hi);
        if last_begin(t1, ls, hi) is Some {
            let q = last_begin(t1, ls, hi)->0;
            assert(t1.subrange(q, q + 7) =~= t.subrange(q, q + 7));
            assert(is_begin_at(t, q));
        }
    }
}

/// A cursor inside the text has as many line breaks before its byte as its
/// line number, and its line starts at or before that byte.
proof fn lemma_cursor_on_its_line(t: Seq<u8>, c: Cursor)
    requires
        crate::cursor::cursor_in_text(c, t),
        pos_byte(t, c.line as int, c.col as int) <= t.len(),
    ensures
        breaks_before(t, pos_byte(t, c.line as int, c.col as int)) == c.line,
        line_byte(t, c.line as int) == line_start(t, c.line as nat),
        line_start(t, c.line as nat) <= pos_byte(t, c.line as int, c.col as int),
{
    let l = c.line as int;
    let p = pos_byte(t, l, c.col as int);
    lemma_line_start(t, l as nat);
    let ls = line_start(t, l as nat);
    assert forall|j: int| ls <= j < p implies !crate::text_model::is_break_end(t, j) by {
        if crate::text_model::is_break_end(t, j) && l + 1 == line_count(t) {
            crate::text_model::lemma_breaks_before_strict(t, ls, j, t.len() as int);
        }
    }
    crate::text_model::lemma_breaks_before_flat(t, ls, p);
}

/// Delete removes the byte at the cursor and leaves the cursor where it
/// is; at the end of the text it changes nothing.
pub proof fn law_delete_removes_byte_at_cursor(pre: &App, post: &App)
    requires
        delete_post(pre, post),
    ensures
        post.cursor == pre.cursor,
        pre.cursor_pos() < pre.buffer@.len() ==> post.buffer@ == pre.buffer@.subrange(
            0,
            pre.cursor_pos(),
        ) + pre.buffer@.subrange(pre.cursor_pos() + 1, pre.buffer@.len() as int),
        pre.cursor_pos() >= pre.buffer@.len() ==> post.buffer@ == pre.buffer@,
{
}

/// Enter breaks the line at the cursor and carries its indentation over:
/// the text gets an LF at the cursor followed by the leading spaces and
/// tabs of the cursor's line, and the cursor moves to the new line, just
/// after that indentation. (A CR just before the cursor is left out: the
/// LF would join it into one break.)
pub proof fn law_enter_starts_indented_line(pre: &App, post: &App)
    requires
        pre.wf(),
        pre.buffer@.len() < usize::MAX,
        crate::cursor::cursor_in_text(pre.cursor, pre.buffer@),
        pre.cursor_ok(),
        !(pre.cursor_pos() > 0 && pre.buffer@[pre.cursor_pos() - 1] == 13u8),
        insert_newline_post(pre, post),
    ensures
        ({
            let t = pre.buffer@;
            let p = pre.cursor_pos();
            let ind = line_indent(t, pre.cursor.line as int);
            &&& forall|j: int| 0 <= j < ind.len() ==> ind[j] == 32u8 || ind[j] == 9u8
            &&& post.buffer@ == t.subrange(0, p) + seq![10u8] + ind + t.subrange(p, t.len() as int)
            &&& post.cursor.line == pre.cursor.line + 1
            &&& post.cursor_pos() == p + 1 + ind.len()
        }),
{
    let t = pre.buffer@;
    let p = pre.cursor_pos();
    let l = pre.cursor.line as int;
    let ind = line_indent(t, l);
    lemma_cursor_on_its_line(t, pre.cursor);
    lemma_indent_is_blank(t, line_byte(t, l), line_byte(t, l) + line_len_or_zero(t, l));
    lemma_line_extent(t, l);
    let t1 = splice_insert(t, p, seq![10u8]);
    lemma_insert_keeps_prefix_breaks(t, p, seq![10u8], p);
    assert(t1[p] == 10u8);
    assert(crate::text_model::is_break_end(t1, p));
    assert(breaks_before(t1, p + 1) == l + 1);
    lemma_line_start_at(t1, p + 1);
    assert(line_byte(t1, l + 1) == p + 1);
    let t3 = if ind.len() > 0 { splice_insert(t1, p + 1, ind) } else { t1 };
    assert(post.buffer@ == t3);
    assert(t3 =~= t.subrange(0, p) + seq![10u8] + ind + t.subrange(p, t.len() as int));
    if ind.len() > 0 {
        lemma_insert_keeps_prefix_breaks(t1, p + 1, ind, p + 1);
        lemma_line_start_at(t3, p + 1);
    }
    assert(line_byte(t3, l + 1) == p + 1);
    lemma_breaks_below(t, p);
    assert(post.cursor.line as int == l + 1);
    assert(post.cursor.col as int == ind.len());
    assert(post.cursor_pos() == p + 1 + ind.len());
    assert forall|j: int| 0 <= j < ind.len() implies ind[j] == 32u8 || ind[j] == 9u8 by {
        assert(ind[j] == t[line_byte(t, l) + j]);
    }
}

/// The indentation counted from `from` is made of spaces and tabs, and
/// stays before `end`.
proof fn lemma_indent_is_blank(t: Seq<u8>, from: int, end: int)
    ensures
        forall|j: int| from <= j < from + indent_len(t, from, end) ==> t[j] == 32u8 || t[j] == 9u8,
        from <= end ==> from + indent_len(t, from, end) <= end,
    decreases end - from,
{
    if from < end && (t[from] == 32u8 || t[from] == 9u8) {
        lemma_indent_is_blank(t, from + 1, end);
    }
}

/// Backspace at the start of a line joins it to the line above: the LF
/// before the cursor goes, and the cursor lands at the end of the line
/// above, on the byte where the LF was. (A CR before that LF is left out:
/// it stays a break of its own.)
pub proof fn law_backspace_joins_lines(pre: &App, post: &App)
    requires
        pre.wf(),
        pre.buffer@.len() <= usize::MAX,
        crate::cursor::cursor_in_text(pre.cursor, pre.buffer@),
        pre.cursor_ok(),
        pre.cursor_pos() > 0,
        pre.buffer@[pre.cursor_pos() - 1] == 10u8,
        !(pre.cursor_pos() >= 2 && pre.buffer@[pre.cursor_pos() - 2] == 13u8),
        backspace_post(pre, post),
    ensures
        post.buffer@ == pre.buffer@.subrange(0, pre.cursor_pos() - 1) + pre.buffer@.subrange(
            pre.cursor_pos(),
            pre.buffer@.len() as int,
        ),
        post.cursor.line + 1 == pre.cursor.line,
        post.cursor_pos() == pre.cursor_pos() - 1,
{
    let t = pre.buffer@;
    let p = pre.cursor_pos();
    let l = pre.cursor.line as int;
    lemma_cursor_on_its_line(t, pre.cursor);
    assert(crate::text_model::is_break_end(t, p - 1));
    lemma_line_start_at(t, p);
    assert(line_start(t, l as nat) == p);
    assert(l > 0);
    lemma_line_start(t, (l - 1) as nat);
    let ls1 = line_start(t, (l - 1) as nat);
    let t2 = splice_remove(t, p - 1, p);
    lemma_remove_keeps_prefix_breaks(t, p - 1, p, ls1);
    lemma_line_start_at(t2, ls1);
    assert(line_byte(t2, l - 1) == ls1);
    assert(((l - 1) + 1) as nat == l as nat);
    assert(line_len_or_zero(t, l - 1) == p - ls1);
    assert(post.cursor.line as int == l - 1);
    assert(post.cursor.col as int == p - ls1 - 1);
    assert(post.buffer@ == t2);
}

/// Typing an ASCII character puts it at the cursor and moves the cursor
/// just past it on its line: the character is inserted, or, for a `}`
/// typed in front of a `}`, stepped over; an opening `{`, `(` or single
/// `$` gets its closing partner right after the cursor, and any other
/// character is inserted alone. (A CR just before the cursor is left out:
/// the typed character would split a CR LF break there.)
pub proof fn law_typing_puts_char_before_cursor(pre: &App, post: &App, c: char)
    requires
        pre.wf(),
        pre.buffer@.len() < usize::MAX,
        crate::cursor::cursor_in_text(pre.cursor, pre.buffer@),
        pre.cursor_ok(),
        !(pre.cursor_pos() > 0 && pre.buffer@[pre.cursor_pos() - 1] == 13u8),
        '\0' <= c <= '\u{7f}',
        c != '\r',
        insert_char_post(pre, post, c),
    ensures
        ({
            let t = pre.buffer@;
            let p = pre.cursor_pos();
            &&& post.cursor.line == pre.cursor.line
            &&& post.cursor_pos() == p + 1
            &&& post.buffer@[p] == c as u8
            &&& c == '{' ==> post.buffer@ == t.subrange(0, p) + seq![123u8, 125u8] + t.subrange(
                p,
                t.len() as int,
            )
            &&& c == '(' ==> post.buffer@ == t.subrange(0, p) + seq![40u8, 41u8] + t.subrange(
                p,
                t.len() as int,
            )
            &&& c == '}' && p < t.len() && t[p] == 125u8 ==> post.buffer@ == t
            &&& c != '{' && c != '(' && c != '$' && !(c == '}' && p < t.len() && t[p] == 125u8)
                ==> post.buffer@ == t.subrange(0, p) + seq![c as u8] + t.subrange(p, t.len() as int)
        }),
{
    let t = pre.buffer@;
    let p = pre.cursor_pos();
    let l = pre.cursor.line as int;
    lemma_cursor_on_its_line(t, pre.cursor);
    let ls = line_start(t, l as nat);
    lemma_line_start(t, l as nat);
    lemma_breaks_below(t, p);
    assert(is_ascii_chars(seq![c]));
    lemma_encode_ascii(seq![c]);
    assert(char_bytes(c) =~= seq![c as u8]);
    let skip = c == '}' && p < t.len() && t[p] == 125u8;
    if !skip {
        let t1 = splice_insert(t, p, char_bytes(c));
        lemma_insert_keeps_prefix_breaks(t, p, char_bytes(c), ls);
        if ls > 0 {
            assert(crate::text_model::is_break_end(t1, ls - 1));
        }
        let u = post.buffer@;
        if u == t1 {
            lemma_line_start_at(t1, ls);
        } else {
            let closer: u8 = if c == '{' {
                125u8
            } else if c == '(' {
                41u8
            } else {
                36u8
            };
            assert(u == splice_insert(t1, p + 1, seq![closer]));
            assert(t1[p] == c as u8);
            lemma_insert_keeps_prefix_breaks(t1, p + 1, seq![closer], ls);
            lemma_line_start_at(u, ls);
            assert(u =~= t.subrange(0, p) + seq![c as u8, closer] + t.subrange(p, t.len() as int));
        }
        assert(t1 =~= t.subrange(0, p) + seq![c as u8] + t.subrange(p, t.len() as int));
        assert(line_byte(u, l) == ls);
    }
}

/// The settled view shows the cursor's line: it lies among the `vis`
/// lines from the view's first one.
proof fn lemma_settled_view_shows_line(cl: int, sl: int, vis: int, total: int)
    requires
        0 <= cl < total,
        0 <= sl,
        vis >= 1,
    ensures
        visible_scroll_line(cl, sl, vis, total) <= cl < visible_scroll_line(cl, sl, vis, total) + vis,
{
}

/// Go to line `n` (counted from 1) puts the cursor at the start of that
/// line and scrolls so that it is on screen; a line number of 0 or past the
/// last line leaves the cursor and the view where they were.
pub proof fn law_goto_line_reaches_line(pre: &App, post: &App, input: Seq<char>, n: nat)
    requires
        crate::text_util::spec_parse_usize(input) == Some(n),
        goto_line_post(pre, post, input),
    ensures
        1 <= n <= line_count(pre.buffer@) ==> {
            &&& post.cursor.line + 1 == n
            &&& post.cursor_pos() == line_start(pre.buffer@, (n - 1) as nat)
            &&& post.scroll.line <= post.cursor.line < post.scroll.line
                + pre.spec_editor_height()
        },
        !(1 <= n <= line_count(pre.buffer@)) ==> post.cursor == pre.cursor && post.scroll
            == pre.scroll,
{
    if 1 <= n <= line_count(pre.buffer@) {
        lemma_settled_view_shows_line(
            (n - 1) as int,
            pre.scroll.line as int,
            pre.spec_editor_height(),
            line_count(pre.buffer@) as int,
        );
    }
}

/// Undoing right after a paste gives back the text and the cursor from
/// before the paste: a paste, however short, is one undo step of its own.
pub proof fn law_undo_after_paste(pre: &App, mid: &App, post: &App, text: String)
    requires
        pre.wf(),
        pre.cursor_ok(),
        pre.cursor_pos() <= usize::MAX,
        text@.len() > 0,
        paste_received_post(pre, mid, text),
        undo_post(mid, post),
    ensures
        post.buffer@ == pre.buffer@,
        post.cursor == pre.cursor,
{
    let t = pre.buffer@;
    let p = pre.cursor_pos();
    let after = cursor_after_paste(pre.cursor, encode_utf8(text@));
    let e = insertion_edit(p, text@, pre.cursor, after);
    assert(encode_utf8(e.deleted) =~= Seq::<u8>::empty()) by {
        assert(e.deleted =~= Seq::<char>::empty());
    }
    assert(splice_insert(t, p, encode_utf8(text@)) =~= apply_edit(t, e));
    assert(t.subrange(p, p) =~= encode_utf8(e.deleted));
    law_revert_after_apply(t, e);
}

/// Undoing right after a cut that took text gives back the text and the
/// cursor from before the cut: a cut is one undo step.
pub proof fn law_undo_after_cut(pre: &App, mid: &App, post: &App)
    requires
        pre.wf(),
        pre.buffer@.len() <= usize::MAX,
        pre.cursor.selecting && pre.cursor.anchor is Some && pre.cursor.anchor != Some(
            (pre.cursor.line, pre.cursor.col),
        ) ==> ({
            let r = crate::cursor::spec_selection_range(pre.cursor, pre.buffer@)->0;
            char_boundary(pre.buffer@, r.0) && char_boundary(pre.buffer@, r.1)
        }),
        cut_selection_or_line_post(pre, mid),
        mid.clipboard@.len() > 0,
        undo_post(mid, post),
    ensures
        post.buffer@ == pre.buffer@,
        post.cursor == pre.cursor,
{
    let t = pre.buffer@;
    let c = pre.cursor;
    let has_sel = c.selecting && c.anchor is Some && c.anchor != Some((c.line, c.col));
    let (a, b, after) = if has_sel {
        let r = crate::cursor::spec_selection_range(c, t)->0;
        let t2 = splice_remove(t, r.0, r.1);
        let l2 = crate::text_model::breaks_before(t2, r.0);
        (r.0, r.1, Cursor {
            line: l2 as usize,
            col: (r.0 - line_byte(t2, l2 as int)) as usize,
            selecting: false,
            anchor: None,
        })
    } else {
        let bs = line_byte(t, c.line as int);
        let be = bs + line_len_or_zero(t, c.line as int);
        let t2 = if line_count(t) > 1 {
            splice_remove(t, bs, be)
        } else {
            Seq::<u8>::empty()
        };
        (bs, be, Cursor {
            line: (if line_count(t) > 1 && c.line >= line_count(t2) {
                sat_sub(line_count(t2) as int, 1)
            } else {
                c.line as int
            }) as usize,
            col: 0,
            ..c
        })
    };
    if has_sel {
        let r = crate::cursor::spec_selection_range(c, t)->0;
        assert(r.0 <= r.1);
    } else {
        lemma_line_extent(t, c.line as int);
        if line_count(t) <= 1 {
            lemma_line_start(t, 0);
            if c.line != 0 {
                assert(line_len_or_zero(t, c.line as int) == 0);
            }
        }
    }
    assert(0 <= a <= b <= t.len());
    let e = deletion_edit(a, text_of(t, a, b), c, after);
    vstd::utf8::encode_utf8_decode_utf8(mid.clipboard@);
    assert(e.deleted == mid.clipboard@);
    assert(encode_utf8(e.deleted) == t.subrange(a, b));
    assert(encode_utf8(e.deleted).len() > 0);
    assert(e.byte_idx == a);
    assert(byte_len(e.deleted) == b - a);
    crate::history::law_multi_byte_edit_is_own_step(pre.history@, e);
    assert(encode_utf8(e.inserted) =~= Seq::<u8>::empty()) by {
        assert(e.inserted =~= Seq::<char>::empty());
    }
    assert(mid.buffer@ =~= apply_edit(t, e));
    law_revert_after_apply(t, e);
}

impl App {
    /// Cut the selection, or the cursor's whole line when nothing is
    /// selected, into the clipboard, as one undoable deletion.
    #[verifier::spinoff_prover]
    #[verifier::rlimit(40)]
    pub fn cut_selection_or_line(&mut self)
        requires
            old(self).wf(),
            crate::cursor::selection_fits(old(self).cursor, old(self).buffer@),
            old(self).cursor.selecting && old(self).cursor.anchor is Some && old(self).cursor.anchor
                != Some((old(self).cursor.line, old(self).cursor.col)) ==> ({
                let r = crate::cursor::spec_selection_range(old(self).cursor, old(self).buffer@)->0;
                char_boundary(old(self).buffer@, r.0) && char_boundary(old(self).buffer@, r.1)
            }),
        ensures
            cut_selection_or_line_post(old(self), final(self)),
    {
        let cursor_before = self.cursor;
        let ghost t = self.buffer@;
        let _ = self.buffer.len_bytes();
        if self.cursor.has_selection() {
            let (start, end) = match self.cursor.selection_range(&self.buffer) {
                Some(r) => r,
                None => (0, 0),
            };
            let text = self.buffer.text_between(start, end);
            proof {
                vstd::utf8::encode_utf8_decode_utf8(text@);
            }
            self.clipboard = text;
            self.buffer.remove(start, end);
            // Move cursor to start of selection
            let line = self.buffer.byte_to_line(start);
            proof {
                crate::text_model::lemma_line_of_byte(self.buffer@, start as int);
            }
            self.cursor.line = line;
            self.cursor.col = start - self.buffer.line_to_byte(line);
            self.ensure_cursor_visible();
            self.cursor.clear_selection();
            self.history.push(
                Edit {
                    byte_idx: start,
                    deleted: self.clipboard.clone(),
                    inserted: String::new(),
                    cursor_before,
                    cursor_after: self.cursor,
                },
            );
            self.set_message("Cut selection");
        } else {
            // Fall back to cutting the whole line
            let byte_start = self.buffer.line_to_byte(self.cursor.line);
            let line_len = self.buffer.line_len_bytes(self.cursor.line);
            proof {
                lemma_line_extent(t, self.cursor.line as int);
                lemma_line_byte_boundary(t, self.cursor.line as int);
                lemma_line_byte_boundary(t, self.cursor.line + 1);
                if (self.cursor.line as int) < line_count(t) {
                    lemma_line_start(t, self.cursor.line as nat);
                }
            }
            let byte_end = byte_start + line_len;
            let text = self.buffer.text_between(byte_start, byte_end);
            proof {
                vstd::utf8::encode_utf8_decode_utf8(text@);
            }
            self.clipboard = text;
            if self.buffer.line_count() > 1 {
                self.buffer.remove(byte_start, byte_end);
                if self.cursor.line >= self.buffer.line_count() {
                    self.cursor.line = self.buffer.line_count().saturating_sub(1);
                }
                self.cursor.col = 0;
            } else {
                proof {
                    vstd::utf8::is_char_boundary_start_end_of_seq(t);
                }
                let total = self.buffer.len_bytes();
                self.buffer.remove(0, total);
                assert(self.buffer@ =~= Seq::<u8>::empty());
                self.cursor.col = 0;
            }
            self.ensure_cursor_visible();
            self.history.push(
                Edit {
                    byte_idx: byte_start,
                    deleted: self.clipboard.clone(),
                    inserted: String::new(),
                    cursor_before,
                    cursor_after: self.cursor,
                },
            );
            self.set_message("Cut line");
        }
    }

    /// Copy the selection, or the cursor's line when nothing is selected,
    /// into the clipboard. Returns whether something was copied (and so
    /// should go to the system clipboard too).
    pub fn copy_line(&mut self) -> (copied: bool)
        requires
            old(self).wf(),
            crate::cursor::selection_fits(old(self).cursor, old(self).buffer@),
            crate::cursor::spec_selection_range(old(self).cursor, old(self).buffer@) matches Some(
                p,
            ) ==> char_boundary(old(self).buffer@, p.0) && char_boundary(old(self).buffer@, p.1),
        ensures
            copy_line_post(old(self), final(self), copied),
    {
        if self.cursor.has_selection() {
            match self.cursor.selected_text(&self.buffer) {
                Some(text) => {
                    self.clipboard = text;
                    self.set_message("Copied selection");
                    true
                },
                None => false,
            }
        } else {
            let line = self.buffer.line(self.cursor.line);
            self.clipboard = line;
            self.set_message("Copied line");
            true
        }
    }

    /// Select the whole text.
    pub fn select_all(&mut self)
        requires
            old(self).wf(),
        ensures
            select_all_post(old(self), final(self)),
    {
        self.cursor.selecting = true;
        self.cursor.anchor = Some((0, 0));
        self.cursor.line = self.buffer.line_count().saturating_sub(1);
        let last_line_len = self.buffer.line_len_bytes(self.cursor.line);
        self.cursor.col = last_line_len;
        self.ensure_cursor_visible();
        self.set_message("Selected all");
    }
}

/// `pat` occurs in `t` at byte `p`.
pub open spec fn matches_at(t: Seq<u8>, pat: Seq<u8>, p: int) -> bool {
    0 <= p && p + pat.len() <= t.len() && t.subrange(p, p + pat.len()) == pat
}

/// The first occurrence of `pat` starting at or after `lo` that ends at or
/// before `hi`.
pub open spec fn first_match(t: Seq<u8>, pat: Seq<u8>, lo: int, hi: int) -> Option<int>
    decreases hi - lo,
{
    if lo + pat.len() > hi || lo >= hi {
        None
    } else if matches_at(t, pat, lo) {
        Some(lo)
    } else {
        first_match(t, pat, lo + 1, hi)
    }
}

/// The cursor placed on byte `p` of `t`, keeping its selection state.
pub open spec fn cursor_at_byte(c: Cursor, t: Seq<u8>, p: int) -> Cursor {
    let l = crate::text_model::breaks_before(t, p);
    Cursor { line: l as usize, col: (p - line_byte(t, l as int)) as usize, ..c }
}

proof fn lemma_first_match_bounds(t: Seq<u8>, pat: Seq<u8>, lo: int, hi: int)
    requires
        0 <= lo,
        hi <= t.len(),
    ensures
        first_match(t, pat, lo, hi) matches Some(p) ==> lo <= p && p + pat.len() <= hi
            && matches_at(t, pat, p),
    decreases hi - lo,
{
    if lo + pat.len() <= hi && lo < hi && !matches_at(t, pat, lo) {
        lemma_first_match_bounds(t, pat, lo + 1, hi);
    }
}

impl App {
    fn match_at(&self, pat: &[u8], p: usize) -> (b: bool)
        requires
            p + pat@.len() <= self.buffer@.len(),
        ensures
            b == matches_at(self.buffer@, pat@, p as int),
    {
        let ghost t = self.buffer@;
        let n = self.buffer.len_bytes();
        let m = pat.len();
        let mut k: usize = 0;
        while k < m
            invariant
                k <= m,
                m == pat@.len(),
                n == t.len(),
                t == self.buffer@,
                p + m <= n,
                forall|j: int| 0 <= j < k ==> t[p + j] == pat@[j],
            decreases m - k,
        {
            if self.buffer.byte_at(p + k) != pat[k] {
                proof {
                    assert(t.subrange(p as int, p + m)[k as int] != pat@[k as int]);
                }
                return false;
            }
            k += 1;
        }
        assert(t.subrange(p as int, p + m) =~= pat@);
        true
    }

    /// The first occurrence of `pat` in `[lo, hi)`.
    fn search(&self, pat: &[u8], lo: usize, hi: usize) -> (r: Option<usize>)
        requires
            lo <= hi <= self.buffer@.len(),
            pat@.len() > 0,
        ensures
            match r {
                Some(p) => first_match(self.buffer@, pat@, lo as int, hi as int) == Some(p as int),
                None => first_match(self.buffer@, pat@, lo as int, hi as int) is None,
            },
    {
        let m = pat.len();
        let mut p = lo;
        while p <= hi && hi - p >= m
            invariant
                lo <= p,
                hi <= self.buffer@.len(),
                m == pat@.len(),
                m > 0,
                first_match(self.buffer@, pat@, lo as int, hi as int) == first_match(
                    self.buffer@,
                    pat@,
                    p as int,
                    hi as int,
                ),
            decreases hi + 1 - p,
        {
            if self.match_at(pat, p) {
                return Some(p);
            }
            p += 1;
        }
        None
    }

    /// Move the cursor to the next occurrence of `term` at or after it,
    /// wrapping around to the start of the text.
    pub fn find_next(&mut self, term: &str)
        requires
            old(self).wf(),
            old(self).cursor_pos() <= usize::MAX,
            old(self).buffer@.len() > 0 && term@.len() > 0 ==> old(self).cursor_ok(),
        ensures
            find_next_post(old(self), final(self), term@),
    {
        let ghost t = self.buffer@;
        let cursor_byte = self.cursor.byte_idx(&self.buffer);
        let total = self.buffer.len_bytes();
        let pat = term.as_bytes();
        if total == 0 || pat.len() == 0 {
            self.set_message("Not found");
            return ;
        }
        let found = self.search(pat, cursor_byte, total);
        let (pos, wrapped) = match found {
            Some(p) => (p, false),
            None => match self.search(pat, 0, cursor_byte) {
                Some(p) => (p, true),
                None => {
                    self.set_message("Not found");
                    return ;
                },
            },
        };
        proof {
            lemma_first_match_bounds(t, pat@, cursor_byte as int, total as int);
            lemma_first_match_bounds(t, pat@, 0, cursor_byte as int);
            crate::text_model::lemma_line_of_byte(t, pos as int);
        }
        let line = self.buffer.byte_to_line(pos);
        self.cursor.line = line;
        self.cursor.col = pos - self.buffer.line_to_byte(line);
        self.ensure_cursor_visible();
        let mut msg = String::from_str("Found \"");
        msg.append(term);
        if wrapped {
            msg.append("\" (wrapped)");
        } else {
            msg.append("\"");
        }
        self.set_message_string(msg);
    }

    /// Move the cursor to the start of the 1-based line number typed in
    /// `input`.
    pub fn goto_line(&mut self, input: &str)
        requires
            old(self).wf(),
        ensures
            goto_line_post(old(self), final(self), input@),
    {
        let line: usize = match crate::text_util::parse_usize(input) {
            Some(n) => if n > 0 {
                n - 1
            } else {
                self.set_message("Invalid line number");
                return ;
            },
            None => {
                self.set_message("Invalid line number");
                return ;
            },
        };
        if line < self.buffer.line_count() {
            self.cursor.line = line;
            self.cursor.col = 0;
            self.ensure_cursor_visible();
            let mut msg = String::from_str("Goto line ");
            let num = usize_to_string(line + 1);
            msg.append(num.as_str());
            self.set_message_string(msg);
        } else {
            self.set_message("Line number out of range");
        }
    }

    /// Put the cursor where the mouse clicked (terminal cell `col`, `row`),
    /// clamped to the clicked line.
    pub fn mouse_click(&mut self, col: u16, row: u16)
        ensures
            mouse_click_post(old(self), final(self), col, row),
    {
        let gutter = self.gutter_width() as usize;
        let height = self.editor_height();
        // Most terminals send 0-indexed coordinates, some 1-indexed: try
        // 0-indexed first, fall back to 1-indexed when out of bounds.
        let r = if (row as usize) < height {
            row as usize
        } else {
            row.saturating_sub(1) as usize
        };
        if r >= height {
            return ;
        }
        let c = if (col as usize) > gutter {
            col as usize - gutter
        } else {
            (col.saturating_sub(1) as usize).saturating_sub(gutter)
        };
        let count = self.buffer.line_count();
        if self.scroll.line >= count || r >= count - self.scroll.line {
            return ;
        }
        let buf_line = self.scroll.line + r;
        let line_len = self.buffer.line_len_bytes(buf_line);
        let is_last = buf_line + 1 >= count;
        let limit = if is_last {
            line_len
        } else {
            line_len.saturating_sub(1)
        };
        let new_col = if self.scroll.col > limit || c > limit - self.scroll.col {
            limit
        } else {
            self.scroll.col + c
        };
        self.cursor.clear_selection();
        self.cursor.line = buf_line;
        self.cursor.col = new_col;
        self.ensure_cursor_visible();
    }
}

/// The extension of a path as `std::path::Path::extension` gives it.
pub uninterp spec fn path_extension(path: Seq<char>) -> Option<Seq<char>>;

/// The path with its extension set as `std::path::PathBuf::set_extension`
/// does.
pub uninterp spec fn path_with_extension(path: Seq<char>, ext: Seq<char>) -> Seq<char>;

/// `Path::extension` on `path`, converted to a `String`.
#[verifier::external_body]
pub(crate) fn extension_of(path: &str) -> (r: Option<String>)
    ensures
        match r {
            Some(e) => path_extension(path@) == Some(e@),
            None => path_extension(path@) is None,
        },
{
    std::path::Path::new(path).extension().and_then(|e| e.to_str()).map(|e| e.to_string())
}

/// A text of lower-case letters holds no path separator.
pub(crate) proof fn lemma_letters_hold_no_separator(s: Seq<char>)
    requires
        forall|i: int| 0 <= i < s.len() ==> 'a' <= #[trigger] s[i] <= 'z',
    ensures
        !s.contains('/'),
        !s.contains('\\'),
{
}

/// `PathBuf::set_extension` on `path`, converted back to a `String`.
/// `set_extension` panics when the extension holds a path separator, so
/// `ext` holds none.
#[verifier::external_body]
pub(crate) fn with_extension(path: &str, ext: &str) -> (r: String)
    requires
        !ext@.contains('/'),
        !ext@.contains('\\'),
    ensures
        r@ == path_with_extension(path@, ext@),
{
    let mut p = std::path::PathBuf::from(path);
    p.set_extension(ext);
    p.to_string_lossy().into_owned()
}

/// The path names a `.tex` file.
pub open spec fn is_tex_path(path: Seq<char>) -> bool {
    path_extension(path) == Some("tex"@)
}

/// Whether `path` names a `.tex` file.
pub fn has_tex_extension(path: &str) -> (b: bool)
    ensures
        b == is_tex_path(path@),
{
    match extension_of(path) {
        Some(e) => {
            let tex = String::from_str("tex");
            e == tex
        },
        None => false,
    }
}

/// What the editor asks its caller to do after a key press: the parts of a
/// command that touch files, processes or the system clipboard.
pub enum Effect {
    Nothing,
    /// Save the buffer to its path.
    Save,
    /// Start a LaTeX build of the buffer.
    Build,
    /// Close the preview when it is open, else build and open it.
    TogglePreview,
    /// Put the editor's clipboard on the system clipboard.
    CopyToSystem,
    /// Read the system clipboard and hand it to `paste`.
    PasteFromSystem,
    /// Save the buffer under a new path (asking first when it exists).
    SaveAs(String),
    /// Open the file at this path.
    Open(String),
}

pub const LATEX_TEMPLATE: &'static str = "\\documentclass{article}
\\usepackage[margin=1in]{geometry}
\\usepackage{amsmath,amssymb}
\\usepackage{graphicx}
\\usepackage{xcolor}
\\usepackage{hyperref}
\\usepackage{tikz}
\\usepackage{pgfplots}
\\pgfplotsset{compat=1.18}
\\usepackage{circuitikz}

\\title{Untitled}
\\author{}
\\date{\\today}

\\begin{document}

\\maketitle

\\section{Introduction}

% Example TikZ drawing:
\\begin{center}
\\begin{tikzpicture}
  \\draw[thick,->] (0,0) -- (4,0) node[right] {$x$};
  \\draw[thick,->] (0,0) -- (0,3) node[above] {$y$};
  \\draw[domain=0:3.5,smooth,variable=\\x,blue] plot ({\\x},{(\\x)^2/4});
  \\node at (2,2.5) {$y = x^2/4$};
\\end{tikzpicture}
\\end{center}

% Example PGFPlots:
\\begin{center}
\\begin{tikzpicture}
\\begin{axis}[
  xlabel=$x$, ylabel=$y$,
  grid=major,
  legend entries={$\\sin x$,$\\cos x$}
]
  \\addplot[red] {sin(deg(x))};
  \\addplot[blue] {cos(deg(x))};
\\end{axis}
\\end{tikzpicture}
\\end{center}

\\end{document}
";

impl App {
    /// Start a new document from the LaTeX template.
    pub fn new_file(&mut self)
        requires
            old(self).wf(),
        ensures
            new_file_post(old(self), final(self)),
    {
        self.buffer = Buffer::new();
        proof {
            vstd::utf8::is_char_boundary_start_end_of_seq(self.buffer@);
        }
        self.buffer.insert(0, LATEX_TEMPLATE);
        assert(self.buffer@ =~= encode_utf8(LATEX_TEMPLATE@));
        self.cursor = Cursor::new();
        self.history.clear();
        self.scroll = Scroll { line: 0, col: 0 };
        self.last_compile = None;
        self.set_message("New LaTeX document");
    }

    /// Note an edit: the build is out of date, an automatic build is
    /// pending, and its countdown restarts.
    pub fn modified_since_build(&mut self)
        ensures
            modified_since_build_post(old(self), final(self)),
    {
        self.debounce_requested = true;
        self.edit_fresh = true;
        self.build_dirty = true;
    }

    /// Scroll the view one line up without moving the cursor.
    pub fn scroll_view_up(&mut self)
        ensures
            scroll_view_up_post(old(self), final(self)),
    {
        self.scroll.line = self.scroll.line.saturating_sub(1);
    }

    /// Scroll the view one line down without moving the cursor, stopping at
    /// the last line.
    pub fn scroll_view_down(&mut self)
        ensures
            scroll_view_down_post(old(self), final(self)),
    {
        let max_line = self.buffer.line_count().saturating_sub(1);
        if self.scroll.line < max_line {
            self.scroll.line += 1;
        }
    }

    /// The mouse wheel scrolled down: three lines, without scrolling past
    /// the last screenful.
    pub fn wheel_down(&mut self)
        ensures
            wheel_down_post(old(self), final(self)),
    {
        let visible = self.editor_height();
        let last = self.buffer.line_count().saturating_sub(1);
        let s = self.scroll.line.saturating_add(3);
        self.scroll.line = if s < last {
            s
        } else {
            last
        };
        // Don't scroll past the last visible line
        let max_scroll = last.saturating_sub(visible.saturating_sub(1));
        if self.scroll.line > max_scroll {
            self.scroll.line = max_scroll;
        }
    }

    /// The mouse wheel scrolled up: three lines.
    pub fn wheel_up(&mut self)
        ensures
            wheel_up_post(old(self), final(self)),
    {
        self.scroll.line = self.scroll.line.saturating_sub(3);
    }

    /// The terminal was resized.
    pub fn resize(&mut self, width: u16, height: u16)
        ensures
            resize_post(old(self), final(self), width, height),
    {
        self.terminal_width = width;
        self.terminal_height = height;
    }
}

/// A key code, as the terminal reports it.
#[derive(Debug, Clone, Copy, PartialEq, Eq)]
pub enum KeyCode {
    Char(char),
    Up,
    Down,
    Left,
    Right,
    Home,
    End,
    PageUp,
    PageDown,
    Backspace,
    Delete,
    Enter,
    Tab,
    Esc,
    Other,
}

/// A key press: the key and its modifier bits (shift 1, control 2, alt 4,
/// super 8, hyper 16, meta 32).
#[derive(Debug, Clone, Copy)]
pub struct Key {
    pub code: KeyCode,
    pub modifiers: u8,
}

pub const MOD_NONE: u8 = 0;

pub const MOD_SHIFT: u8 = 1;

pub const MOD_CONTROL: u8 = 2;

/// The first line of `s` as `str::lines` gives it: up to the first LF,
/// without a CR just before that LF.
pub open spec fn first_line_bytes(b: Seq<u8>) -> Seq<u8> {
    let k = first_lf(b, 0);
    if k < b.len() && k > 0 && b[k - 1] == 13u8 {
        b.take(k - 1)
    } else {
        b.take(k)
    }
}

/// Index of the first LF at or after `i`, or the length.
pub open spec fn first_lf(b: Seq<u8>, i: int) -> int
    decreases b.len() - i,
{
    if i >= b.len() {
        b.len() as int
    } else if b[i] == 10u8 {
        i
    } else {
        first_lf(b, i + 1)
    }
}

/// The entry of the error list for a build error.
pub open spec fn diagnostic_text(line: usize, message: Seq<char>) -> Seq<char> {
    "line "@ + decimal((line + 1) as nat) + ": "@ + message
}

proof fn lemma_first_lf(b: Seq<u8>, i: int)
    requires
        0 <= i <= b.len(),
    ensures
        i <= first_lf(b, i) <= b.len(),
        first_lf(b, i) < b.len() ==> b[first_lf(b, i)] == 10u8,
    decreases b.len() - i,
{
    if i < b.len() && b[i] != 10u8 {
        lemma_first_lf(b, i + 1);
    }
}

/// The first line of `s` (see `first_line_bytes`).
fn first_line(s: &String) -> (r: String)
    ensures
        encode_utf8(r@) == first_line_bytes(encode_utf8(s@)),
{
    let bytes = s.as_str().as_bytes();
    let n = bytes.len();
    let ghost b = bytes@;
    let mut k: usize = 0;
    while k < n && bytes[k] != 10u8
        invariant
            k <= n,
            n == b.len(),
            b == bytes@,
            first_lf(b, 0) == first_lf(b, k as int),
        decreases n - k,
    {
        k += 1;
    }
    let end = if k < n && k > 0 && bytes[k - 1] == 13u8 {
        k - 1
    } else {
        k
    };
    proof {
        vstd::utf8::encode_utf8_valid_utf8(s@);
        if end < n {
            crate::text_model::lemma_boundary_is_char_boundary(b, end as int);
        } else {
            vstd::utf8::is_char_boundary_start_end_of_seq(b);
        }
    }
    let (head, _) = s.as_str().split_at(end);
    String::from_str(head)
}

impl App {
    /// Save: hand the buffer to the caller to write when it has a path,
    /// else open the Save-As prompt (which only takes `.tex` names).
    pub fn save(&mut self) -> (e: Effect)
        ensures
            save_post(old(self), final(self), e),
    {
        match self.buffer.path() {
            Some(_) => Effect::Save,
            None => {
                self.mode = Mode::Command {
                    input: String::new(),
                    kind: CommandKind::SaveAs { force_tex: true },
                };
                Effect::Nothing
            },
        }
    }

    /// The caller tried to write the buffer to `path`, its own path.
    /// Returns whether a build should follow (after saving a `.tex` file).
    pub fn save_finished(&mut self, path: &str, result: Result<(), String>) -> (build: bool)
        requires
            old(self).wf(),
        ensures
            final(self).wf(),
            match result {
                Ok(_) => {
                    &&& final(self).buffer@ == old(self).buffer@
                    &&& final(self).buffer.spec_path() == old(self).buffer.spec_path()
                    &&& !final(self).buffer.spec_modified()
                    &&& message_shown(&App { buffer: final(self).buffer, ..*old(self) }, final(self), "Saved"@)
                    &&& build == is_tex_path(path@)
                },
                Err(e) => {
                    &&& message_shown(old(self), final(self), "Error saving: "@ + e@)
                    &&& !build
                },
            },
    {
        match result {
            Ok(()) => {
                self.buffer.set_modified(false);
                self.set_message("Saved");
                has_tex_extension(path)
            },
            Err(e) => {
                let mut msg = String::from_str("Error saving: ");
                msg.append(e.as_str());
                self.set_message_string(msg);
                false
            },
        }
    }

    /// The caller tried to write the buffer to the new `path` given at the
    /// Save-As prompt. Returns whether a build should follow.
    pub fn save_as_finished(&mut self, path: String, result: Result<(), String>) -> (build: bool)
        requires
            old(self).wf(),
        ensures
            final(self).wf(),
            match result {
                Ok(_) => {
                    &&& final(self).buffer@ == old(self).buffer@
                    &&& final(self).buffer.spec_path() == Some(path@)
                    &&& !final(self).buffer.spec_modified()
                    &&& message_shown(&App { buffer: final(self).buffer, ..*old(self) }, final(self), "Saved"@)
                    &&& build == is_tex_path(path@)
                },
                Err(e) => {
                    &&& message_shown(old(self), final(self), "Error saving: "@ + e@)
                    &&& !build
                },
            },
    {
        match result {
            Ok(()) => {
                let build = has_tex_extension(path.as_str());
                self.buffer.set_path(Some(path));
                self.buffer.set_modified(false);
                self.set_message("Saved");
                build
            },
            Err(e) => {
                let mut msg = String::from_str("Error saving: ");
                msg.append(e.as_str());
                self.set_message_string(msg);
                false
            },
        }
    }

    /// The Save-As target exists: remember it as the buffer's path and ask
    /// before overwriting.
    pub fn confirm_overwrite(&mut self, path: String)
        ensures
            final(self).buffer.spec_path() == Some(path@),
            final(self).buffer@ == old(self).buffer@,
            final(self).buffer.spec_modified() == old(self).buffer.spec_modified(),
            final(self).mode matches Mode::Confirm { message, action } && message@ == "Overwrite "@
                + path@ + "? (y/N)"@ && action == ConfirmAction::SaveAsOverwrite,
            *final(self) == (App { buffer: final(self).buffer, mode: final(self).mode, ..*old(self) }),
    {
        let mut message = String::from_str("Overwrite ");
        message.append(path.as_str());
        message.append("? (y/N)");
        self.buffer.set_path(Some(path));
        self.mode = Mode::Confirm { message, action: ConfirmAction::SaveAsOverwrite };
    }

    /// The caller tried to read the file at `path` for the Open prompt.
    pub fn open_finished(&mut self, path: &str, result: Result<Buffer, String>)
        requires
            old(self).wf(),
            result matches Ok(b) ==> b.wf(),
        ensures
            final(self).wf(),
            match result {
                Ok(b) => {
                    &&& final(self).diagnostics@.len() == 0
                    &&& message_shown(
                        &App {
                            buffer: b,
                            cursor: Cursor { line: 0, col: 0, selecting: false, anchor: None },
                            scroll: Scroll { line: 0, col: 0 },
                            last_compile: None,
                            diagnostics: final(self).diagnostics,
                            ..*old(self)
                        },
                        final(self),
                        "Opened "@ + path@,
                    )
                },
                Err(e) => message_shown(old(self), final(self), "Error opening: "@ + e@),
            },
    {
        match result {
            Ok(buf) => {
                self.buffer = buf;
                self.cursor = Cursor::new();
                self.scroll = Scroll { line: 0, col: 0 };
                self.last_compile = None;
                self.diagnostics = Vec::new();
                let mut msg = String::from_str("Opened ");
                msg.append(path);
                self.set_message_string(msg);
            },
            Err(e) => {
                let mut msg = String::from_str("Error opening: ");
                msg.append(e.as_str());
                self.set_message_string(msg);
            },
        }
    }

    /// Carry out a command typed at the prompt.
    pub fn execute_command(&mut self, kind: CommandKind, input: &str) -> (e: Effect)
        requires
            old(self).wf(),
            kind is Find ==> old(self).cursor_pos() <= usize::MAX && (old(self).buffer@.len()
                > 0 && input@.len() > 0 ==> old(self).cursor_ok()),
        ensures
            final(self).wf(),
            execute_command_post(old(self), final(self), kind, input@, e),
    {
        match kind {
            CommandKind::SaveAs { force_tex } => {
                if input.is_empty() {
                    self.set_message("No filename given");
                    return Effect::Nothing;
                }
                // Ctrl+S (force_tex): only .tex allowed
                if force_tex {
                    match extension_of(input) {
                        None => {
                            proof {
                                reveal_strlit("tex");
                                lemma_letters_hold_no_separator("tex"@);
                            }
                            return Effect::SaveAs(with_extension(input, "tex"));
                        },
                        Some(ext) => {
                            let tex = String::from_str("tex");
                            if !(ext == tex) {
                                self.set_message("Only .tex files can be saved");
                                return Effect::Nothing;
                            }
                        },
                    }
                }
                Effect::SaveAs(String::from_str(input))
            },
            CommandKind::Open => {
                if input.is_empty() {
                    self.set_message("No filename given");
                    return Effect::Nothing;
                }
                if !has_tex_extension(input) {
                    self.set_message("Only .tex files can be opened");
                    return Effect::Nothing;
                }
                Effect::Open(String::from_str(input))
            },
            CommandKind::Find => {
                if input.is_empty() {
                    self.set_message("No search term");
                    return Effect::Nothing;
                }
                self.find_next(input);
                Effect::Nothing
            },
            CommandKind::GotoLine => {
                self.goto_line(input);
                Effect::Nothing
            },
        }
    }

    /// A key press while the prompt is open: edit the input, cancel, or run
    /// the command.
    pub fn handle_command_key(&mut self, key: Key) -> (e: Effect)
        requires
            old(self).wf(),
            old(self).mode matches Mode::Command { kind, .. } && kind is Find && key.code
                == KeyCode::Enter ==> old(self).cursor_pos() <= usize::MAX && old(self).cursor_ok(),
        ensures
            final(self).wf(),
            command_key_post(old(self), final(self), key, e),
    {
        let mut mode = Mode::Normal;
        std::mem::swap(&mut mode, &mut self.mode);
        let (mut input, kind) = match mode {
            Mode::Command { input, kind } => (input, kind),
            other => {
                self.mode = other;
                return Effect::Nothing;
            },
        };
        match key.code {
            KeyCode::Esc => {
                self.mode = Mode::Normal;
                self.cancel_message();
                Effect::Nothing
            },
            KeyCode::Enter => {
                self.mode = Mode::Normal;
                self.execute_command(kind, input.as_str())
            },
            KeyCode::Backspace => {
                crate::text_util::string_pop(&mut input);
                self.mode = Mode::Command { input, kind };
                Effect::Nothing
            },
            KeyCode::Char(c) => {
                if key.modifiers == MOD_NONE || key.modifiers == MOD_SHIFT {
                    crate::text_util::string_push(&mut input, c);
                }
                self.mode = Mode::Command { input, kind };
                Effect::Nothing
            },
            _ => {
                self.mode = Mode::Command { input, kind };
                Effect::Nothing
            },
        }
    }

    /// A key press while an overwrite question is open.
    pub fn handle_confirm_key(&mut self, key: Key) -> (e: Effect)
        ensures
            confirm_key_post(old(self), final(self), key, e),
    {
        let is_confirm = match self.mode {
            Mode::Confirm { .. } => true,
            _ => false,
        };
        if !is_confirm {
            return Effect::Nothing;
        }
        match key.code {
            KeyCode::Esc | KeyCode::Char('n') | KeyCode::Char('N') => {
                self.mode = Mode::Normal;
                self.set_message("Cancelled");
                Effect::Nothing
            },
            KeyCode::Char('y') | KeyCode::Char('Y') | KeyCode::Enter => {
                // Save again with the stored path
                self.mode = Mode::Normal;
                match self.buffer.path() {
                    Some(_) => Effect::Save,
                    None => {
                        self.set_message("No filename");
                        Effect::Nothing
                    },
                }
            },
            _ => Effect::Nothing,
        }
    }

    /// A key press while the help overlay is shown: Esc or Ctrl+H close it.
    pub fn handle_help_key(&mut self, key: Key)
        ensures
            help_key_post(old(self), final(self), key),
    {
        let close = match key.code {
            KeyCode::Esc => true,
            KeyCode::Char('h') => key.modifiers == MOD_CONTROL,
            _ => false,
        };
        if close {
            self.mode = Mode::Normal;
        }
    }

    /// A key press while the build error list is shown: move through it
    /// (wrapping around) or close it.
    pub fn handle_error_view_key(&mut self, key: Key)
        ensures
            error_view_key_post(old(self), final(self), key),
    {
        let mut mode = Mode::Normal;
        std::mem::swap(&mut mode, &mut self.mode);
        let (errors, selected) = match mode {
            Mode::ErrorView { errors, selected } => (errors, selected),
            other => {
                self.mode = other;
                return ;
            },
        };
        let n = errors.len();
        let ctrl = key.modifiers == MOD_CONTROL;
        let close = match key.code {
            KeyCode::Esc => true,
            KeyCode::Char('e') => ctrl,
            _ => false,
        };
        let up = match key.code {
            KeyCode::Up => true,
            KeyCode::Char('k') => ctrl,
            _ => false,
        };
        let down = match key.code {
            KeyCode::Down => true,
            KeyCode::Char('j') => ctrl,
            _ => false,
        };
        if close {
            self.mode = Mode::Normal;
        } else if up {
            let next = if selected == 0 {
                n.saturating_sub(1)
            } else {
                selected - 1
            };
            self.mode = Mode::ErrorView { errors, selected: next };
        } else if down {
            let next = if selected >= n || n - selected <= 1 {
                0
            } else {
                selected + 1
            };
            self.mode = Mode::ErrorView { errors, selected: next };
        } else {
            self.mode = Mode::ErrorView { errors, selected };
        }
    }

    /// Open the build error list, or say there is none.
    #[verifier::spinoff_prover]
    pub fn show_errors(&mut self)
        ensures
            show_errors_post(old(self), final(self)),
    {
        if self.diagnostics.len() == 0 {
            self.set_message("No errors");
            return ;
        }
        let mut errors: Vec<(usize, String)> = Vec::new();
        let n = self.diagnostics.len();
        let mut i: usize = 0;
        while i < n
            invariant
                i <= n,
                n == self.diagnostics@.len(),
                errors@.len() == i,
                forall|j: int| 0 <= j < i ==> #[trigger] errors@[j].0 == j && errors@[j].1
                    == self.diagnostics@[j],
            decreases n - i,
        {
            errors.push((i, self.diagnostics[i].clone()));
            i += 1;
        }
        self.mode = Mode::ErrorView { errors, selected: 0 };
    }
}

impl App {
    /// A build was started in the background.
    pub fn build_started(&mut self)
        ensures
            message_shown(&App { build_dirty: false, ..*old(self) }, final(self), "Building…"@),
    {
        self.build_dirty = false;
        self.set_message("Building…");
    }

    /// A build succeeded. Returns whether the preview should be opened now
    /// (the request for it is consumed).
    pub fn build_succeeded(&mut self, result: CompileResult) -> (open_preview: bool)
        ensures
            build_succeeded_post(old(self), final(self), result, open_preview),
    {
        let size = match &result.pdf_data {
            Some(d) => d.len(),
            None => 0,
        };
        let mut msg = String::from_str("Build OK (");
        let num = usize_to_string(size);
        msg.append(num.as_str());
        msg.append(" bytes)");
        self.set_message_string(msg);
        self.last_compile = Some(result);
        let open = self.open_zathura_on_complete;
        self.open_zathura_on_complete = false;
        open
    }

    /// After a successful build: say so when the text changed meanwhile.
    pub fn note_edits_since_build(&mut self)
        ensures
            note_edits_post(old(self), final(self)),
    {
        if self.build_dirty {
            self.set_message("Build OK — edits made since build");
        }
    }

    /// A build failed: list its errors, report the first one and move the
    /// cursor to its line.
    pub fn build_failed(&mut self, result: CompileResult)
        requires
            result.errors@.len() > 0,
            forall|i: int| 0 <= i < result.errors@.len() ==> #[trigger] result.errors@[i].line
                < usize::MAX,
        ensures
            build_failed_post(old(self), final(self), result),
    {
        let n = result.errors.len();
        let mut diagnostics: Vec<String> = Vec::new();
        let mut i: usize = 0;
        while i < n
            invariant
                i <= n,
                n == result.errors@.len(),
                diagnostics@.len() == i,
                forall|j: int| 0 <= j < result.errors@.len() ==> #[trigger] result.errors@[j].line
                    < usize::MAX,
                forall|j: int|
                    0 <= j < i ==> #[trigger] diagnostics@[j]@ == diagnostic_text(
                        result.errors@[j].line,
                        result.errors@[j].message@,
                    ),
            decreases n - i,
        {
            let e = &result.errors[i];
            let mut d = String::from_str("line ");
            let num = usize_to_string(e.line + 1);
            d.append(num.as_str());
            d.append(": ");
            d.append(e.message.as_str());
            diagnostics.push(d);
            i += 1;
        }
        self.diagnostics = diagnostics;
        let first_line_no = result.errors[0].line;
        let head = first_line(&result.errors[0].message);
        proof {
            vstd::utf8::encode_utf8_decode_utf8(head@);
        }
        let mut msg = String::from_str("Build failed (");
        let count = usize_to_string(n);
        msg.append(count.as_str());
        msg.append(" error");
        if n == 1 {
            msg.append("");
        } else {
            msg.append("s");
        }
        msg.append(") — line ");
        let num = usize_to_string(first_line_no + 1);
        msg.append(num.as_str());
        msg.append(": ");
        msg.append(head.as_str());
        self.set_message_string(msg);
        self.last_compile = Some(result);
        self.cursor.line = first_line_no;
        self.cursor.col = 0;
        self.ensure_cursor_visible();
    }
}

/// The editor with the scroll that `ensure_cursor_visible` settles on.
pub open spec fn settle(e: App) -> App {
    let s = e.settled_scroll(e.cursor, e.buffer@);
    App { scroll: Scroll { line: s.0 as usize, col: s.1 as usize }, ..e }
}

/// The editor after an edit is noted for the automatic build.
pub open spec fn mark_modified(e: App) -> App {
    App { build_dirty: true, debounce_requested: true, edit_fresh: true, ..e }
}

/// The editor with the cursor's selection dropped.
pub open spec fn cleared(e: App) -> App {
    App { cursor: Cursor { selecting: false, anchor: None, ..e.cursor }, ..e }
}

pub open spec fn with_cursor(e: App, c: Cursor) -> App {
    App { cursor: c, ..e }
}

/// Everything but the mode is unchanged.
pub open spec fn same_but_mode(a: &App, b: &App) -> bool {
    *b == App { mode: b.mode, ..*a }
}

/// Everything but the status message is unchanged.
pub open spec fn same_but_message(a: &App, b: &App) -> bool {
    *b == App { message: b.message, message_fresh: b.message_fresh, ..*a }
}

/// The effect of `ensure_cursor_visible` on the editor.
pub open spec fn ensure_cursor_visible_post(pre: &App, post: &App) -> bool {
    &&& *post == settle(*pre)
    &&& (pre.cursor.line < line_count(pre.buffer@) ==> post.scroll.line
                <= pre.cursor.line < post.scroll.line + pre.spec_editor_height())
    &&& post.scroll.col <= pre.cursor.col < post.scroll.col + pre.spec_text_area_width()
    &&& post.buffer == pre.buffer
    &&& post.cursor == pre.cursor
    &&& post.history == pre.history
    &&& post.message == pre.message
    &&& post.message_fresh == pre.message_fresh
    &&& post.clipboard == pre.clipboard
    &&& post.ghost_text == pre.ghost_text
    &&& same_settings(post, pre)
}

/// The effect of `insert_str_with_history` on the editor.
pub open spec fn insert_str_with_history_post(pre: &App, post: &App, s: Seq<char>) -> bool {
    &&& post.wf()
    &&& (post.buffer@ == splice_insert(
                pre.buffer@,
                pre.cursor_pos(),
                encode_utf8(s),
            ))
    &&& post.buffer.spec_modified()
    &&& post.buffer.spec_path() == pre.buffer.spec_path()
    &&& (post.cursor == (Cursor {
                col: (pre.cursor.col + encode_utf8(s).len()) as usize,
                ..pre.cursor
            }))
    &&& (post.history@ == crate::history::spec_push(
                pre.history@,
                insertion_edit(pre.cursor_pos(), s, pre.cursor, post.cursor),
            ))
    &&& post.scroll == pre.scroll
    &&& post.message == pre.message
    &&& post.message_fresh == pre.message_fresh
    &&& post.clipboard == pre.clipboard
    &&& post.ghost_text == pre.ghost_text
    &&& same_settings(post, pre)
}

/// The effect of `insert_char` on the editor.
/// The text a keystroke of `c` at byte `p` of `t` inserts: `c`, followed
/// by the closing character when `c` opens a brace, a parenthesis or a
/// single `$`.
pub open spec fn typed_text(c: char, t: Seq<u8>, p: int) -> Seq<char> {
    if c == '{' {
        seq![c, '}']
    } else if c == '(' {
        seq![c, ')']
    } else if c == '$' && !(p > 0 && t[p - 1] == 36u8) {
        seq![c, '$']
    } else {
        seq![c]
    }
}

pub open spec fn insert_char_post(pre: &App, post: &App, c: char) -> bool {
    &&& post.wf()
    &&& {
        let t = pre.buffer@;
        let p = pre.cursor_pos();
        let skip = c == '}' && p < t.len() && t[p] == 125u8;
        let t1 = splice_insert(t, p, char_bytes(c));
        if skip {
            &&& post.buffer == pre.buffer
            &&& post.cursor == (Cursor {
                col: (pre.cursor.col + 1) as usize,
                ..pre.cursor
            })
            &&& ghost_after_check(
                pre.ghost_text,
                post.ghost_text,
                t,
                pre.cursor.line as int,
                p,
            )
            &&& post.history == pre.history
        } else {
            &&& post.buffer@ == (if c == '{' {
                splice_insert(t1, p + 1, seq![125u8])
            } else if c == '(' {
                splice_insert(t1, p + 1, seq![41u8])
            } else if c == '$' && !(p > 0 && t[p - 1] == 36u8) {
                splice_insert(t1, p + 1, seq![36u8])
            } else {
                t1
            })
            &&& post.cursor == (Cursor {
                col: (pre.cursor.col + 1) as usize,
                ..pre.cursor
            })
            &&& (if c == '}' {
                ghost_after_check(
                    pre.ghost_text,
                    post.ghost_text,
                    t1,
                    pre.cursor.line as int,
                    p,
                )
            } else if c == '{' || c == '(' || c == '$' {
                post.ghost_text == pre.ghost_text
            } else {
                post.ghost_text is None
            })
            &&& post.history@ == crate::history::spec_push(
                pre.history@,
                insertion_edit(p, typed_text(c, t, p), pre.cursor, post.cursor),
            )
            &&& post.buffer.spec_modified()
        }
    }
    &&& post.buffer.spec_path() == pre.buffer.spec_path()
    &&& post.scroll == pre.scroll
    &&& post.message == pre.message
    &&& post.message_fresh == pre.message_fresh
    &&& post.clipboard == pre.clipboard
    &&& same_settings(post, pre)
}

/// The effect of `insert_newline` on the editor.
pub open spec fn insert_newline_post(pre: &App, post: &App) -> bool {
    &&& post.wf()
    &&& {
        let t = pre.buffer@;
        let p = pre.cursor_pos();
        let ind = line_indent(t, pre.cursor.line as int);
        let t1 = splice_insert(t, p, seq![10u8]);
        let after = Cursor {
            line: (pre.cursor.line + 1) as usize,
            col: ind.len() as usize,
            ..pre.cursor
        };
        &&& post.buffer@ == (if ind.len() > 0 {
            splice_insert(t1, line_byte(t1, pre.cursor.line + 1), ind)
        } else {
            t1
        })
        &&& post.cursor == after
        &&& post.history@ == crate::history::spec_push(
            pre.history@,
            insertion_edit(
                p,
                seq!['\n'] + vstd::utf8::decode_utf8(ind),
                pre.cursor,
                after,
            ),
        )
    }
    &&& post.buffer.spec_modified()
    &&& post.buffer.spec_path() == pre.buffer.spec_path()
    &&& post.scroll == pre.scroll
    &&& post.message == pre.message
    &&& post.message_fresh == pre.message_fresh
    &&& post.clipboard == pre.clipboard
    &&& post.ghost_text == pre.ghost_text
    &&& same_settings(post, pre)
}

/// The effect of `backspace` on the editor.
pub open spec fn backspace_post(pre: &App, post: &App) -> bool {
    &&& post.wf()
    &&& {
        let t = pre.buffer@;
        let p = pre.cursor_pos();
        let l = pre.cursor.line as int;
        let after = if t[p - 1] == 10u8 {
            Cursor {
                line: sat_sub(l, 1) as usize,
                col: sat_sub(line_len_or_zero(t, sat_sub(l, 1)), 1) as usize,
                ..pre.cursor
            }
        } else {
            Cursor { col: sat_sub(pre.cursor.col as int, 1) as usize, ..pre.cursor }
        };
        if p > 0 {
            &&& post.buffer@ == splice_remove(t, p - 1, p)
            &&& post.cursor == after
            &&& post.history@ == crate::history::spec_push(
                pre.history@,
                deletion_edit(p - 1, text_of(t, p - 1, p), pre.cursor, after),
            )
            &&& post.buffer.spec_modified()
        } else {
            &&& post.buffer == pre.buffer
            &&& post.cursor == pre.cursor
            &&& post.history == pre.history
        }
    }
    &&& post.buffer.spec_path() == pre.buffer.spec_path()
    &&& post.scroll == pre.scroll
    &&& post.message == pre.message
    &&& post.message_fresh == pre.message_fresh
    &&& post.clipboard == pre.clipboard
    &&& post.ghost_text == pre.ghost_text
    &&& same_settings(post, pre)
}

/// The effect of `delete` on the editor.
pub open spec fn delete_post(pre: &App, post: &App) -> bool {
    &&& post.wf()
    &&& {
        let t = pre.buffer@;
        let p = pre.cursor_pos();
        if p < t.len() {
            &&& post.buffer@ == splice_remove(t, p, p + 1)
            &&& post.history@ == crate::history::spec_push(
                pre.history@,
                deletion_edit(p, text_of(t, p, p + 1), pre.cursor, pre.cursor),
            )
            &&& post.buffer.spec_modified()
        } else {
            &&& post.buffer == pre.buffer
            &&& post.history == pre.history
        }
    }
    &&& post.buffer.spec_path() == pre.buffer.spec_path()
    &&& post.cursor == pre.cursor
    &&& post.scroll == pre.scroll
    &&& post.message == pre.message
    &&& post.message_fresh == pre.message_fresh
    &&& post.clipboard == pre.clipboard
    &&& post.ghost_text == pre.ghost_text
    &&& same_settings(post, pre)
}

/// The effect of `undo` on the editor.
pub open spec fn undo_post(pre: &App, post: &App) -> bool {
    &&& post.wf()
    &&& (match spec_undo(pre.history@).1 {
                Some(e) => {
                    &&& post.buffer@ == (if is_noop_edit(e) {
                        pre.buffer@
                    } else {
                        revert_edit(pre.buffer@, e)
                    })
                    &&& post.cursor == e.cursor_before
                    &&& post.history@ == spec_undo(pre.history@).0
                    &&& post.buffer.spec_modified()
                    &&& (post.scroll.line as int, post.scroll.col as int) == pre.settled_scroll(e.cursor_before, post.buffer@)
                    &&& post.message@ == "Undo"@
                },
                None => {
                    &&& post.buffer == pre.buffer
                    &&& post.cursor == pre.cursor
                    &&& post.history@ == pre.history@
                    &&& post.scroll == pre.scroll
                    &&& post.message@ == "Nothing to undo"@
                },
            })
    &&& post.buffer.spec_path() == pre.buffer.spec_path()
    &&& post.message_fresh
    &&& post.clipboard == pre.clipboard
    &&& post.ghost_text == pre.ghost_text
    &&& same_settings(post, pre)
}

/// The effect of `redo` on the editor.
pub open spec fn redo_post(pre: &App, post: &App) -> bool {
    &&& post.wf()
    &&& (match spec_redo(pre.history@).1 {
                Some(e) => {
                    &&& post.buffer@ == (if is_noop_edit(e) {
                        pre.buffer@
                    } else {
                        apply_edit(pre.buffer@, e)
                    })
                    &&& post.cursor == e.cursor_after
                    &&& post.history@ == spec_redo(pre.history@).0
                    &&& post.buffer.spec_modified()
                    &&& (post.scroll.line as int, post.scroll.col as int) == pre.settled_scroll(e.cursor_after, post.buffer@)
                    &&& post.message@ == "Redo"@
                },
                None => {
                    &&& post.buffer == pre.buffer
                    &&& post.cursor == pre.cursor
                    &&& post.history@ == pre.history@
                    &&& post.scroll == pre.scroll
                    &&& post.message@ == "Nothing to redo"@
                },
            })
    &&& post.buffer.spec_path() == pre.buffer.spec_path()
    &&& post.message_fresh
    &&& post.clipboard == pre.clipboard
    &&& post.ghost_text == pre.ghost_text
    &&& same_settings(post, pre)
}

/// The effect of `cut_selection_or_line` on the editor.
pub open spec fn cut_selection_or_line_post(pre: &App, post: &App) -> bool {
    &&& post.wf()
    &&& {
        let t = pre.buffer@;
        let c = pre.cursor;
        let has_sel = c.selecting && c.anchor is Some && c.anchor != Some((c.line, c.col));
        if has_sel {
            let r = crate::cursor::spec_selection_range(c, t)->0;
            let t2 = splice_remove(t, r.0, r.1);
            let l2 = crate::text_model::breaks_before(t2, r.0);
            let after = Cursor {
                line: l2 as usize,
                col: (r.0 - line_byte(t2, l2 as int)) as usize,
                selecting: false,
                anchor: None,
            };
            &&& encode_utf8(post.clipboard@) == t.subrange(r.0, r.1)
            &&& post.buffer@ == t2
            &&& post.cursor == after
            &&& post.history@ == crate::history::spec_push(
                pre.history@,
                deletion_edit(r.0, text_of(t, r.0, r.1), c, after),
            )
            &&& (post.scroll.line as int, post.scroll.col as int) == pre.settled_scroll(after, t2)
            &&& post.message@ == "Cut selection"@
        } else {
            let bs = line_byte(t, c.line as int);
            let be = bs + line_len_or_zero(t, c.line as int);
            let t2 = if line_count(t) > 1 {
                splice_remove(t, bs, be)
            } else {
                Seq::<u8>::empty()
            };
            let after = Cursor {
                line: (if line_count(t) > 1 && c.line >= line_count(t2) {
                    sat_sub(line_count(t2) as int, 1)
                } else {
                    c.line as int
                }) as usize,
                col: 0,
                ..c
            };
            &&& encode_utf8(post.clipboard@) == t.subrange(bs, be)
            &&& post.buffer@ == t2
            &&& post.cursor == after
            &&& post.history@ == crate::history::spec_push(
                pre.history@,
                deletion_edit(bs, text_of(t, bs, be), c, after),
            )
            &&& (post.scroll.line as int, post.scroll.col as int) == pre.settled_scroll(after, t2)
            &&& post.message@ == "Cut line"@
        }
    }
    &&& post.buffer.spec_modified()
    &&& post.buffer.spec_path() == pre.buffer.spec_path()
    &&& post.message_fresh
    &&& post.ghost_text == pre.ghost_text
    &&& same_settings(post, pre)
}

/// The effect of `copy_line` on the editor.
pub open spec fn copy_line_post(pre: &App, post: &App, copied: bool) -> bool {
    &&& {
        let t = pre.buffer@;
        let c = pre.cursor;
        let has_sel = c.selecting && c.anchor is Some && c.anchor != Some((c.line, c.col));
        if has_sel {
            let r = crate::cursor::spec_selection_range(c, t)->0;
            if r.0 == r.1 {
                &&& !copied
                &&& post.clipboard == pre.clipboard
                &&& post.message == pre.message
                &&& post.message_fresh == pre.message_fresh
            } else {
                &&& copied
                &&& encode_utf8(post.clipboard@) == t.subrange(r.0, r.1)
                &&& post.message@ == "Copied selection"@
                &&& post.message_fresh
            }
        } else {
            &&& copied
            &&& (c.line < line_count(t) ==> encode_utf8(post.clipboard@)
                == crate::text_model::line_content(t, c.line as nat))
            &&& (c.line >= line_count(t) ==> post.clipboard@.len() == 0)
            &&& post.message@ == "Copied line"@
            &&& post.message_fresh
        }
    }
    &&& post.buffer == pre.buffer
    &&& post.cursor == pre.cursor
    &&& post.history == pre.history
    &&& post.scroll == pre.scroll
    &&& post.ghost_text == pre.ghost_text
    &&& same_settings(post, pre)
}

/// The effect of `select_all` on the editor.
pub open spec fn select_all_post(pre: &App, post: &App) -> bool {
    &&& {
        let t = pre.buffer@;
        let after = Cursor {
            line: sat_sub(line_count(t) as int, 1) as usize,
            col: line_len_or_zero(t, sat_sub(line_count(t) as int, 1)) as usize,
            selecting: true,
            anchor: Some((0usize, 0usize)),
        };
        &&& post.cursor == after
        &&& (post.scroll.line as int, post.scroll.col as int) == pre.settled_scroll(after, t)
    }
    &&& post.message@ == "Selected all"@
    &&& post.message_fresh
    &&& post.buffer == pre.buffer
    &&& post.history == pre.history
    &&& post.clipboard == pre.clipboard
    &&& post.ghost_text == pre.ghost_text
    &&& same_settings(post, pre)
}

/// The effect of `new_file` on the editor.
pub open spec fn new_file_post(pre: &App, post: &App) -> bool {
    &&& post.wf()
    &&& post.buffer@ == encode_utf8(LATEX_TEMPLATE@)
    &&& post.buffer.spec_path() is None
    &&& post.buffer.spec_modified()
    &&& post.cursor.line == 0 && post.cursor.col == 0 && !post.cursor.selecting && post.cursor.anchor is None
    &&& post.history@.stack.len() == 0
    &&& post.history@.pos == 0
    &&& post.history@.max_len == pre.history@.max_len
    &&& post.scroll.line == 0 && post.scroll.col == 0
    &&& post.last_compile is None
    &&& post.message@ == "New LaTeX document"@
    &&& post.message_fresh
    &&& post.running == pre.running
    &&& post.mode == pre.mode
    &&& post.clipboard == pre.clipboard
    &&& post.ghost_text == pre.ghost_text
    &&& post.terminal_height == pre.terminal_height
    &&& post.terminal_width == pre.terminal_width
    &&& post.tab_width == pre.tab_width
    &&& post.build_dirty == pre.build_dirty
    &&& post.open_zathura_on_complete == pre.open_zathura_on_complete
    &&& post.diagnostics == pre.diagnostics
    &&& post.debounce_requested == pre.debounce_requested
    &&& post.edit_fresh == pre.edit_fresh
}

/// The effect of `note_edits_since_build` on the editor.
pub open spec fn note_edits_post(pre: &App, post: &App) -> bool {
    &&& pre.build_dirty ==> message_shown(pre, post, "Build OK — edits made since build"@)
    &&& !pre.build_dirty ==> *post == *pre
}

/// The effect of `modified_since_build` on the editor.
pub open spec fn modified_since_build_post(pre: &App, post: &App) -> bool {
    *post == mark_modified(*pre)
}

/// The effect of `save` on the editor.
pub open spec fn save_post(pre: &App, post: &App, e: Effect) -> bool {
    &&& pre.buffer.spec_path() is Some ==> e is Save && post.mode == pre.mode
    &&& pre.buffer.spec_path() is None ==> e is Nothing && (post.mode matches Mode::Command { input, kind } && input@.len() == 0 && kind == (CommandKind::SaveAs { force_tex: true }))
    &&& same_but_mode(pre, post)
}

/// The effect of `show_errors` on the editor.
pub open spec fn show_errors_post(pre: &App, post: &App) -> bool {
    &&& (pre.diagnostics@.len() == 0 ==> post.message@ == "No errors"@
                && post.mode == pre.mode)
    &&& (pre.diagnostics@.len() > 0 ==> {
                &&& post.mode matches Mode::ErrorView { errors, selected }
                &&& selected == 0
                &&& errors@.len() == pre.diagnostics@.len()
                &&& forall|i: int|
                    0 <= i < errors@.len() ==> #[trigger] errors@[i].0 == i && errors@[i].1
                        == pre.diagnostics@[i]
            })
    &&& pre.diagnostics@.len() == 0 ==> same_but_message(pre, post) && post.message_fresh
    &&& pre.diagnostics@.len() > 0 ==> same_but_mode(pre, post)
}

/// The effect of `scroll_view_up` on the editor.
pub open spec fn scroll_view_up_post(pre: &App, post: &App) -> bool {
    &&& post.scroll.line == sat_sub(pre.scroll.line as int, 1)
    &&& *post == App { scroll: Scroll { line: post.scroll.line, col: pre.scroll.col }, ..*pre }
}

/// The effect of `scroll_view_down` on the editor.
pub open spec fn scroll_view_down_post(pre: &App, post: &App) -> bool {
    &&& (post.scroll.line == (if pre.scroll.line < sat_sub(
                line_count(pre.buffer@) as int,
                1,
            ) {
                pre.scroll.line + 1
            } else {
                pre.scroll.line as int
            }))
    &&& *post == App { scroll: Scroll { line: post.scroll.line, col: pre.scroll.col }, ..*pre }
}

/// Only the status message changed, to `msg`, and it is shown afresh.
pub open spec fn message_shown(pre: &App, post: &App, msg: Seq<char>) -> bool {
    &&& post.message@ == msg
    &&& post.message_fresh
    &&& *post == App { message: post.message, message_fresh: true, ..*pre }
}

/// The effect of `execute_command` on the editor: the command of kind
/// `kind` run on the prompt's `input`.
pub open spec fn execute_command_post(
    pre: &App,
    post: &App,
    kind: CommandKind,
    input: Seq<char>,
    e: Effect,
) -> bool {
    match kind {
        CommandKind::SaveAs { force_tex } => {
            if input.len() == 0 {
                e is Nothing && message_shown(pre, post, "No filename given"@)
            } else if force_tex && path_extension(input) is None {
                e matches Effect::SaveAs(p) && p@ == path_with_extension(input, "tex"@) && *post
                    == *pre
            } else if force_tex && path_extension(input) != Some("tex"@) {
                e is Nothing && message_shown(pre, post, "Only .tex files can be saved"@)
            } else {
                e matches Effect::SaveAs(p) && p@ == input && *post == *pre
            }
        },
        CommandKind::Open => {
            if input.len() == 0 {
                e is Nothing && message_shown(pre, post, "No filename given"@)
            } else if !is_tex_path(input) {
                e is Nothing && message_shown(pre, post, "Only .tex files can be opened"@)
            } else {
                e matches Effect::Open(p) && p@ == input && *post == *pre
            }
        },
        CommandKind::Find => e is Nothing && if input.len() == 0 {
            message_shown(pre, post, "No search term"@)
        } else {
            find_next_post(pre, post, input)
        },
        CommandKind::GotoLine => e is Nothing && goto_line_post(pre, post, input),
    }
}

/// The effect of `handle_command_key` on the editor: a key press while the
/// prompt is open edits its input, cancels it, or runs the command.
pub open spec fn command_key_post(pre: &App, post: &App, key: Key, e: Effect) -> bool {
    match pre.mode {
        Mode::Command { input, kind } => match key.code {
            KeyCode::Esc => e is Nothing && post.message@.len() == 0 && *post == App {
                mode: Mode::Normal,
                message: post.message,
                ..*pre
            },
            KeyCode::Enter => execute_command_post(
                &App { mode: Mode::Normal, ..*pre },
                post,
                kind,
                input@,
                e,
            ),
            KeyCode::Backspace => {
                &&& e is Nothing
                &&& same_but_mode(pre, post)
                &&& post.mode matches Mode::Command { input: i2, kind: k2 }
                &&& k2 == kind
                &&& i2@ == (if input@.len() > 0 {
                    input@.drop_last()
                } else {
                    input@
                })
            },
            KeyCode::Char(c) => {
                &&& e is Nothing
                &&& if key.modifiers == MOD_NONE || key.modifiers == MOD_SHIFT {
                    &&& same_but_mode(pre, post)
                    &&& post.mode matches Mode::Command { input: i2, kind: k2 }
                    &&& k2 == kind
                    &&& i2@ == input@.push(c)
                } else {
                    *post == *pre
                }
            },
            _ => e is Nothing && *post == *pre,
        },
        _ => e is Nothing && *post == *pre,
    }
}

/// The effect of `handle_confirm_key` on the editor: a key press while an
/// overwrite question is open answers it.
pub open spec fn confirm_key_post(pre: &App, post: &App, key: Key, e: Effect) -> bool {
    let closed = App { mode: Mode::Normal, ..*pre };
    match pre.mode {
        Mode::Confirm { .. } => match key.code {
            KeyCode::Esc | KeyCode::Char('n') | KeyCode::Char('N') => e is Nothing && message_shown(
                &closed,
                post,
                "Cancelled"@,
            ),
            KeyCode::Char('y') | KeyCode::Char('Y') | KeyCode::Enter => if pre.buffer.spec_path() is Some {
                e is Save && *post == closed
            } else {
                e is Nothing && message_shown(&closed, post, "No filename"@)
            },
            _ => e is Nothing && *post == *pre,
        },
        _ => e is Nothing && *post == *pre,
    }
}

/// The effect of `handle_help_key` on the editor: Esc or Ctrl+H close the
/// help overlay.
pub open spec fn help_key_post(pre: &App, post: &App, key: Key) -> bool {
    if key.code == KeyCode::Esc || (key.code == KeyCode::Char('h') && key.modifiers == MOD_CONTROL) {
        *post == App { mode: Mode::Normal, ..*pre }
    } else {
        *post == *pre
    }
}

/// The effect of `handle_error_view_key` on the editor: a key press while
/// the build error list is shown moves through it (wrapping around) or
/// closes it.
pub open spec fn error_view_key_post(pre: &App, post: &App, key: Key) -> bool {
    &&& (match pre.mode {
        Mode::ErrorView { errors, selected } => {
            let n = errors@.len() as int;
            if key.code == KeyCode::Esc || (key.code == KeyCode::Char('e') && key.modifiers
                == MOD_CONTROL) {
                post.mode is Normal
            } else if key.code == KeyCode::Up || (key.code == KeyCode::Char('k') && key.modifiers
                == MOD_CONTROL) {
                post.mode matches Mode::ErrorView { errors: e2, selected: s2 } && e2 == errors
                    && s2 == (if selected == 0 {
                    sat_sub(n, 1)
                } else {
                    selected - 1
                })
            } else if key.code == KeyCode::Down || (key.code == KeyCode::Char('j')
                && key.modifiers == MOD_CONTROL) {
                post.mode matches Mode::ErrorView { errors: e2, selected: s2 } && e2 == errors
                    && s2 == (if selected + 1 >= n {
                    0
                } else {
                    selected + 1
                })
            } else {
                post.mode == pre.mode
            }
        },
        _ => post.mode == pre.mode,
    })
    &&& same_but_mode(pre, post)
}

/// The effect of `paste` on the editor.
pub open spec fn paste_post(pre: &App, post: &App, system_text: Option<String>) -> bool {
    &&& post.wf()
    &&& {
        let text = match system_text {
            Some(s) => if s@.len() > 0 {
                s@
            } else {
                pre.clipboard@
            },
            None => pre.clipboard@,
        };
        let t = pre.buffer@;
        let p = pre.cursor_pos();
        let b = encode_utf8(text);
        let after = cursor_after_paste(pre.cursor, b);
        if text.len() == 0 {
            &&& post.buffer == pre.buffer
            &&& post.cursor == pre.cursor
            &&& post.history == pre.history
            &&& post.clipboard == pre.clipboard
            &&& post.scroll == pre.scroll
            &&& post.message@ == "Nothing to paste"@
        } else {
            &&& post.clipboard@ == text
            &&& post.buffer@ == splice_insert(t, p, b)
            &&& post.buffer.spec_modified()
            &&& post.cursor == after
            &&& post.history@ == crate::history::spec_push_step(
                pre.history@,
                insertion_edit(p, text, pre.cursor, after),
            )
            &&& (post.scroll.line as int, post.scroll.col as int) == pre.settled_scroll(after, post.buffer@)
            &&& post.message@ == "Pasted"@
        }
    }
    &&& post.buffer.spec_path() == pre.buffer.spec_path()
    &&& post.message_fresh
    &&& post.ghost_text == pre.ghost_text
    &&& same_settings(post, pre)
}

/// The effect of `paste_received` on the editor.
pub open spec fn paste_received_post(pre: &App, post: &App, text: String) -> bool {
    &&& post.wf()
    &&& {
        let t = pre.buffer@;
        let p = pre.cursor_pos();
        let b = encode_utf8(text@);
        let after = cursor_after_paste(pre.cursor, b);
        if text@.len() == 0 {
            &&& post.buffer == pre.buffer
            &&& post.cursor == pre.cursor
            &&& post.history == pre.history
            &&& post.scroll == pre.scroll
            &&& post.message == pre.message
            &&& post.message_fresh == pre.message_fresh
        } else {
            &&& post.buffer@ == splice_insert(t, p, b)
            &&& post.buffer.spec_modified()
            &&& post.cursor == after
            &&& post.history@ == crate::history::spec_push_step(
                pre.history@,
                insertion_edit(p, text@, pre.cursor, after),
            )
            &&& (post.scroll.line as int, post.scroll.col as int) == pre.settled_scroll(after, post.buffer@)
            &&& post.message@ == "Pasted"@
            &&& post.message_fresh
        }
    }
    &&& post.buffer.spec_path() == pre.buffer.spec_path()
    &&& post.clipboard == pre.clipboard
    &&& post.ghost_text == pre.ghost_text
    &&& same_settings(post, pre)
}

/// The effect of `wheel_down` on the editor.
pub open spec fn wheel_down_post(pre: &App, post: &App) -> bool {
    &&& {
        let last = sat_sub(line_count(pre.buffer@) as int, 1);
        let s1 = crate::cursor::min_int(pre.scroll.line + 3, last);
        let max_scroll = sat_sub(last, sat_sub(pre.spec_editor_height(), 1));
        post.scroll.line == (if s1 > max_scroll {
            max_scroll
        } else {
            s1
        })
    }
    &&& *post == App { scroll: Scroll { line: post.scroll.line, col: pre.scroll.col }, ..*pre }
}

/// The effect of `wheel_up` on the editor.
pub open spec fn wheel_up_post(pre: &App, post: &App) -> bool {
    &&& post.scroll.line == sat_sub(pre.scroll.line as int, 3)
    &&& *post == App { scroll: Scroll { line: post.scroll.line, col: pre.scroll.col }, ..*pre }
}

/// The effect of `resize` on the editor.
pub open spec fn resize_post(pre: &App, post: &App, width: u16, height: u16) -> bool {
    *post == App { terminal_width: width, terminal_height: height, ..*pre }
}

/// The effect of `mouse_click` on the editor.
pub open spec fn mouse_click_post(pre: &App, post: &App, col: u16, row: u16) -> bool {
    &&& {
        let t = pre.buffer@;
        let gutter = pre.spec_gutter_width();
        let height = pre.spec_editor_height();
        let r = if row < height {
            row as int
        } else {
            sat_sub(row as int, 1)
        };
        let c = if col > gutter {
            col - gutter
        } else {
            sat_sub(sat_sub(col as int, 1), gutter)
        };
        let buf_line = pre.scroll.line + r;
        if r >= height || buf_line >= line_count(t) {
            &&& post.cursor == pre.cursor
            &&& post.scroll == pre.scroll
        } else {
            let limit = col_limit(t, buf_line);
            let after = Cursor {
                line: buf_line as usize,
                col: crate::cursor::min_int(pre.scroll.col + c, limit) as usize,
                selecting: false,
                anchor: None,
            };
            &&& post.cursor == after
            &&& (post.scroll.line as int, post.scroll.col as int) == pre.settled_scroll(after, t)
        }
    }
    &&& post.buffer == pre.buffer
    &&& post.history == pre.history
    &&& post.message == pre.message
    &&& post.message_fresh == pre.message_fresh
    &&& post.clipboard == pre.clipboard
    &&& post.ghost_text == pre.ghost_text
    &&& same_settings(post, pre)
}

/// The effect of `find_next` on the editor.
pub open spec fn find_next_post(pre: &App, post: &App, term: Seq<char>) -> bool {
    &&& {
        let t = pre.buffer@;
        let cb = pre.cursor_pos();
        let pat = encode_utf8(term);
        let fwd = first_match(t, pat, cb, t.len() as int);
        let wrapped = first_match(t, pat, 0, cb);
        if t.len() == 0 || pat.len() == 0 {
            &&& post.cursor == pre.cursor
            &&& post.scroll == pre.scroll
            &&& post.message@ == "Not found"@
        } else if fwd is Some {
            let after = cursor_at_byte(pre.cursor, t, fwd->0);
            &&& post.cursor == after
            &&& (post.scroll.line as int, post.scroll.col as int) == pre.settled_scroll(after, t)
            &&& post.message@ == "Found \""@ + term + "\""@
        } else if wrapped is Some {
            let after = cursor_at_byte(pre.cursor, t, wrapped->0);
            &&& post.cursor == after
            &&& (post.scroll.line as int, post.scroll.col as int) == pre.settled_scroll(after, t)
            &&& post.message@ == "Found \""@ + term + "\" (wrapped)"@
        } else {
            &&& post.cursor == pre.cursor
            &&& post.scroll == pre.scroll
            &&& post.message@ == "Not found"@
        }
    }
    &&& post.message_fresh
    &&& post.buffer == pre.buffer
    &&& post.history == pre.history
    &&& post.clipboard == pre.clipboard
    &&& post.ghost_text == pre.ghost_text
    &&& same_settings(post, pre)
}

/// The effect of `goto_line` on the editor.
pub open spec fn goto_line_post(pre: &App, post: &App, input: Seq<char>) -> bool {
    &&& {
        let t = pre.buffer@;
        match crate::text_util::spec_parse_usize(input) {
            Some(n) => if n == 0 {
                &&& post.cursor == pre.cursor
                &&& post.scroll == pre.scroll
                &&& post.message@ == "Invalid line number"@
            } else if n - 1 < line_count(t) {
                let after = Cursor { line: (n - 1) as usize, col: 0, ..pre.cursor };
                &&& post.cursor == after
                &&& (post.scroll.line as int, post.scroll.col as int)
                    == pre.settled_scroll(after, t)
                &&& post.message@ == "Goto line "@ + decimal(n)
            } else {
                &&& post.cursor == pre.cursor
                &&& post.scroll == pre.scroll
                &&& post.message@ == "Line number out of range"@
            },
            None => {
                &&& post.cursor == pre.cursor
                &&& post.scroll == pre.scroll
                &&& post.message@ == "Invalid line number"@
            },
        }
    }
    &&& post.message_fresh
    &&& post.buffer == pre.buffer
    &&& post.history == pre.history
    &&& post.clipboard == pre.clipboard
    &&& post.ghost_text == pre.ghost_text
    &&& same_settings(post, pre)
}

/// The effect of `build_succeeded` on the editor.
pub open spec fn build_succeeded_post(pre: &App, post: &App, result: CompileResult, open_preview: bool) -> bool {
    &&& post.last_compile == Some(result)
    &&& open_preview == pre.open_zathura_on_complete
    &&& !post.open_zathura_on_complete
    &&& (post.message@ == "Build OK ("@ + decimal(
                match result.pdf_data {
                    Some(d) => d@.len(),
                    None => 0,
                },
            ) + " bytes)"@)
    &&& post.message_fresh
    &&& (*post == App {
        last_compile: Some(result),
        open_zathura_on_complete: false,
        message: post.message,
        message_fresh: true,
        ..*pre
    })
}

/// The effect of `build_failed` on the editor.
pub open spec fn build_failed_post(pre: &App, post: &App, result: CompileResult) -> bool {
    &&& post.last_compile == Some(result)
    &&& post.diagnostics@.len() == result.errors@.len()
    &&& (forall|i: int|
                0 <= i < result.errors@.len() ==> #[trigger] post.diagnostics@[i]@
                    == diagnostic_text(result.errors@[i].line, result.errors@[i].message@))
    &&& {
        let n = result.errors@.len();
        let first = result.errors@[0];
        &&& post.message@ == "Build failed ("@ + decimal(n) + " error"@ + (if n
            == 1 {
            ""@
        } else {
            "s"@
        }) + ") — line "@ + decimal((first.line + 1) as nat) + ": "@
            + vstd::utf8::decode_utf8(first_line_bytes(encode_utf8(first.message@)))
        &&& post.cursor == (Cursor { line: first.line, col: 0, ..pre.cursor })
        &&& (post.scroll.line as int, post.scroll.col as int)
            == pre.settled_scroll(post.cursor, pre.buffer@)
    }
    &&& post.message_fresh
    &&& (*post == App {
        last_compile: Some(result),
        diagnostics: post.diagnostics,
        message: post.message,
        message_fresh: true,
        cursor: post.cursor,
        scroll: post.scroll,
        ..*pre
    })
}

} // verus!
