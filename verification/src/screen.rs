//! What the screen shows: the gutter, the status and command bars, the help
//! page, and where the cursor and the ghost text go. The terminal drawing
//! itself is the caller's; these functions say what to draw.
use vstd::prelude::*;
use vstd::utf8::encode_utf8;
use crate::buffer::display_name;
use crate::config::{Color, Theme};
use crate::app::{sat_sub, CommandKind, App, Mode};
use crate::spans::{
    bg_view, clip_cuts_valid, clip_ok, clip_spans_horiz, clip_view, overlay_cuts_valid, overlay_ok,
    overlay_view, span_bg, span_bg_overlay, spans_view, total_len, window_end, SpanStyle,
};
use crate::cursor::{line_byte, line_len_or_zero};
use crate::text_model::{line_content, line_count};
use crate::text_model::char_boundary;
use crate::text_util::{decimal, spec_lines, split_lines, string_push, trim, trim_str, usize_to_string};

verus! {

/// Spans as styles and texts.
pub open spec fn spans_text(v: Seq<(SpanStyle, String)>) -> Seq<(SpanStyle, Seq<char>)> {
    Seq::new(v.len(), |j: int| (v[j].0, v[j].1@))
}

/// A style with the given colours and weight, neither italic nor
/// underlined.
pub open spec fn style(fg: Option<Color>, bg: Option<Color>, bold: bool) -> SpanStyle {
    SpanStyle { fg, bg, bold, italic: false, underlined: false }
}

fn make_style(fg: Option<Color>, bg: Option<Color>, bold: bool) -> (s: SpanStyle)
    ensures
        s == style(fg, bg, bold),
{
    SpanStyle { fg, bg, bold, italic: false, underlined: false }
}

/// `n` spaces.
pub open spec fn spaces(n: nat) -> Seq<char> {
    Seq::new(n, |i: int| ' ')
}

/// `n` copies of `c` as a `String`.
pub(crate) fn repeat_char(c: char, n: usize) -> (s: String)
    ensures
        s@ == Seq::new(n as nat, |i: int| c),
{
    let mut s = String::new();
    let mut i: usize = 0;
    while i < n
        invariant
            i <= n,
            s@ == Seq::new(i as nat, |j: int| c),
        decreases n - i,
    {
        string_push(&mut s, c);
        i += 1;
        assert(s@ =~= Seq::new(i as nat, |j: int| c));
    }
    s
}

/// `s` right-aligned in a field `w` characters wide (`format!("{:>w$}")`).
pub open spec fn pad_left(s: Seq<char>, w: int) -> Seq<char> {
    if s.len() >= w {
        s
    } else {
        spaces((w - s.len()) as nat) + s
    }
}

fn pad_left_string(s: String, w: usize) -> (r: String)
    ensures
        r@ == pad_left(s@, w as int),
{
    let n = s.as_str().unicode_len();
    if n >= w {
        return s;
    }
    let mut r = repeat_char(' ', w - n);
    r.append(s.as_str());
    r
}

// ── the gutter ────────────────────────────────────────────────────────

/// The gutter's entry for line `idx`: its number (from 1) on the line
/// number colours, or on the cursor line's colours for the cursor's line;
/// a `~` just past the last line; nothing further down.
pub open spec fn gutter_entry(
    theme: Theme,
    idx: int,
    total: int,
    cursor_line: int,
    width: int,
) -> Option<(SpanStyle, Seq<char>)> {
    let st = if idx == cursor_line {
        style(Some(Color::Rgb(180, 180, 180)), Some(theme.cursor_line_bg), false)
    } else {
        style(Some(theme.line_num_fg), Some(theme.gutter_bg), false)
    };
    if idx < total {
        Some((st, pad_left(decimal((idx + 1) as nat), width - 2)))
    } else if idx == total && total > 0 {
        Some(
            (
                style(Some(theme.line_num_fg), Some(theme.line_num_bg), false),
                pad_left("~"@, width - 1) + " "@,
            ),
        )
    } else {
        None
    }
}

/// How many gutter lines are drawn from line `scroll` on a screen `height`
/// lines tall: up to the `~` line.
pub open spec fn gutter_count(scroll: int, total: int, height: int) -> int {
    if total == 0 || scroll > total {
        0
    } else if height < total - scroll + 1 {
        height
    } else {
        total - scroll + 1
    }
}

/// The gutter for the lines from `scroll` on, one entry per screen line.
pub open spec fn gutter_view(
    theme: Theme,
    scroll: int,
    total: int,
    cursor_line: int,
    height: int,
    width: int,
) -> Seq<(SpanStyle, Seq<char>)> {
    Seq::new(
        gutter_count(scroll, total, height) as nat,
        |i: int| gutter_entry(theme, scroll + i, total, cursor_line, width)->0,
    )
}

/// The gutter's lines for the text lines from `scroll_line` on, `height`
/// lines in a gutter `width` columns wide.
pub fn gutter_lines(
    theme: &Theme,
    scroll_line: usize,
    total_lines: usize,
    cursor_line: usize,
    height: u16,
    width: u16,
) -> (r: Vec<(SpanStyle, String)>)
    requires
        width >= 2,
        scroll_line + height <= usize::MAX,
    ensures
        spans_text(r@) == gutter_view(
            *theme,
            scroll_line as int,
            total_lines as int,
            cursor_line as int,
            height as int,
            width as int,
        ),
{
    let mut lines: Vec<(SpanStyle, String)> = Vec::new();
    let visible = height as usize;
    let mut i: usize = 0;
    let ghost count = gutter_count(scroll_line as int, total_lines as int, height as int);
    while i < visible
        invariant
            i <= visible == height,
            width >= 2,
            scroll_line + height <= usize::MAX,
            i <= count,
            count == gutter_count(scroll_line as int, total_lines as int, height as int),
            lines@.len() == i,
            forall|j: int|
                0 <= j < i ==> (#[trigger] lines@[j].0, lines@[j].1@) == gutter_entry(
                    *theme,
                    scroll_line + j,
                    total_lines as int,
                    cursor_line as int,
                    width as int,
                )->0,
        ensures
            i == count,
            lines@.len() == i,
            forall|j: int|
                0 <= j < i ==> (#[trigger] lines@[j].0, lines@[j].1@) == gutter_entry(
                    *theme,
                    scroll_line + j,
                    total_lines as int,
                    cursor_line as int,
                    width as int,
                )->0,
        decreases visible - i,
    {
        let line_idx = scroll_line + i;
        let st = if line_idx == cursor_line {
            make_style(Some(Color::Rgb(180, 180, 180)), Some(theme.cursor_line_bg), false)
        } else {
            make_style(Some(theme.line_num_fg), Some(theme.gutter_bg), false)
        };
        if line_idx < total_lines {
            let num = pad_left_string(usize_to_string(line_idx + 1), width as usize - 2);
            lines.push((st, num));
        } else if line_idx == total_lines && total_lines > 0 {
            // `~` just past the last line
            let mut tilde = pad_left_string(String::from_str("~"), width as usize - 1);
            tilde.append(" ");
            lines.push((make_style(Some(theme.line_num_fg), Some(theme.line_num_bg), false), tilde));
        } else {
            break;
        }
        i += 1;
    }
    assert(spans_text(lines@) =~= gutter_view(
        *theme,
        scroll_line as int,
        total_lines as int,
        cursor_line as int,
        height as int,
        width as int,
    ));
    lines
}

// ── the status bar ────────────────────────────────────────────────────

/// Total UTF-8 length of the spans' texts.
pub open spec fn text_bytes(s: Seq<(SpanStyle, Seq<char>)>) -> nat
    decreases s.len(),
{
    if s.len() == 0 {
        0
    } else {
        text_bytes(s.drop_last()) + encode_utf8(s.last().1).len()
    }
}

/// The parts of the left of the status bar (see `status_left`).
pub open spec fn status_parts(e: &App, theme: Theme, building: bool) -> Seq<
    Seq<(SpanStyle, Seq<char>)>,
> {
    let base = style(Some(theme.status_fg), Some(theme.status_bg), false);
    let bg = Some(theme.status_bg);
    let msg = trim(e.message@);
    seq![
        seq![(base, " "@ + display_name(e.buffer.spec_path()) + " "@)],
        if e.buffer.spec_modified() {
            seq![(style(Some(theme.modified_fg), bg, true), "•"@), (base, " "@)]
        } else {
            Seq::empty()
        },
        if msg.len() > 0 {
            seq![(style(Some(Color::Rgb(180, 220, 255)), bg, false), " "@ + msg + " "@)]
        } else {
            Seq::empty()
        },
        if building {
            seq![(style(Some(theme.building_fg), bg, true), "[Building…] "@)]
        } else {
            Seq::empty()
        },
        match e.last_compile {
            Some(cr) => if cr.success {
                seq![(style(Some(theme.ok_fg), bg, false), "[OK] "@)]
            } else {
                seq![
                    (style(Some(theme.err_fg), bg, true), "["@ + decimal(cr.errors@.len()) + " err] "@),
                ]
            },
            None => Seq::empty(),
        },
        if e.build_dirty {
            seq![(style(Some(theme.modified_fg), bg, false), "[modified] "@)]
        } else {
            Seq::empty()
        },
    ]
}

/// The left part of the status bar: the file name, a mark when the buffer
/// is modified, the message, whether a build runs, how the last build went,
/// and whether the text changed since.
pub open spec fn status_left(e: &App, theme: Theme, building: bool) -> Seq<(SpanStyle, Seq<char>)> {
    let p = status_parts(e, theme, building);
    p[0] + p[1] + p[2] + p[3] + p[4] + p[5]
}

/// The right part of the status bar: the cursor's position (from 1) and
/// the mode.
pub open spec fn status_right(e: &App) -> Seq<char> {
    decimal((e.cursor.line + 1) as nat) + ":"@ + decimal((e.cursor.col + 1) as nat) + "  NORMAL"@
}

/// The status bar, `width` columns wide: the left part, spaces, and the
/// right part aligned to the right edge.
pub open spec fn status_view(e: &App, theme: Theme, building: bool, width: int) -> Seq<
    (SpanStyle, Seq<char>),
> {
    let base = style(Some(theme.status_fg), Some(theme.status_bg), false);
    let left = status_left(e, theme, building);
    let right = status_right(e);
    let pad = sat_sub(width, (text_bytes(left) + encode_utf8(right).len() + 1) as int);
    left + seq![(base, spaces(pad as nat)), (base, " "@ + right)]
}

proof fn lemma_text_bytes_push(s: Seq<(SpanStyle, Seq<char>)>, x: (SpanStyle, Seq<char>))
    ensures
        text_bytes(s.push(x)) == text_bytes(s) + encode_utf8(x.1).len(),
{
    assert(s.push(x).drop_last() =~= s);
}

/// Append a span, keeping `used` at the bytes of all spans so far (or the
/// largest `usize`).
fn push_span(spans: &mut Vec<(SpanStyle, String)>, used: &mut usize, st: SpanStyle, text: String)
    requires
        *old(used) == if text_bytes(spans_text(old(spans)@)) > usize::MAX {
            usize::MAX as int
        } else {
            text_bytes(spans_text(old(spans)@)) as int
        },
    ensures
        spans_text(final(spans)@) == spans_text(old(spans)@).push((st, text@)),
        *final(used) == if text_bytes(spans_text(final(spans)@)) > usize::MAX {
            usize::MAX as int
        } else {
            text_bytes(spans_text(final(spans)@)) as int
        },
{
    let n = text.as_str().as_bytes().len();
    let ghost before = spans_text(spans@);
    proof {
        lemma_text_bytes_push(before, (st, text@));
    }
    assert(n == encode_utf8(text@).len());
    *used = used.saturating_add(n);
    spans.push((st, text));
    assert(spans_text(spans@) =~= spans_text(old(spans)@).push((st, text@)));
}

/// `used` as `push_span` keeps it for the spans `v`.
pub open spec fn used_bytes(v: Seq<(SpanStyle, String)>) -> int {
    if text_bytes(spans_text(v)) > usize::MAX {
        usize::MAX as int
    } else {
        text_bytes(spans_text(v)) as int
    }
}

impl App {
    /// The left part of the status bar, and its length in bytes (or the
    /// largest `usize`).
    #[verifier::rlimit(30)]
    fn status_left_spans(&self, theme: &Theme, building: bool) -> (r: (Vec<(SpanStyle, String)>, usize))
        ensures
            spans_text(r.0@) == status_left(self, *theme, building),
            r.1 == used_bytes(r.0@),
    {
        let ghost p = status_parts(self, *theme, building);
        let base = make_style(Some(theme.status_fg), Some(theme.status_bg), false);
        let bg = Some(theme.status_bg);
        let mut spans: Vec<(SpanStyle, String)> = Vec::new();
        let mut used: usize = 0;
        // Leading space + filename
        let mut name = String::from_str(" ");
        let file = self.buffer.path_or_untitled();
        name.append(file.as_str());
        name.append(" ");
        push_span(&mut spans, &mut used, base, name);
        assert(spans_text(spans@) =~= p[0]);
        // Modified indicator
        if self.buffer.modified() {
            push_span(&mut spans, &mut used, make_style(Some(theme.modified_fg), bg, true), String::from_str("•"));
            push_span(&mut spans, &mut used, base, String::from_str(" "));
        }
        assert(spans_text(spans@) =~= p[0] + p[1]);
        // Status message
        let msg = trim_str(self.message.as_str());
        if msg.as_str().unicode_len() > 0 {
            let mut text = String::from_str(" ");
            text.append(msg.as_str());
            text.append(" ");
            push_span(&mut spans, &mut used, make_style(Some(Color::Rgb(180, 220, 255)), bg, false), text);
        }
        assert(spans_text(spans@) =~= p[0] + p[1] + p[2]);
        // Build in progress
        if building {
            push_span(&mut spans, &mut used, make_style(Some(theme.building_fg), bg, true), String::from_str("[Building…] "));
        }
        assert(spans_text(spans@) =~= p[0] + p[1] + p[2] + p[3]);
        // Build result
        match &self.last_compile {
            Some(cr) => {
                if cr.success {
                    push_span(&mut spans, &mut used, make_style(Some(theme.ok_fg), bg, false), String::from_str("[OK] "));
                } else {
                    let mut text = String::from_str("[");
                    let num = usize_to_string(cr.errors.len());
                    text.append(num.as_str());
                    text.append(" err] ");
                    push_span(&mut spans, &mut used, make_style(Some(theme.err_fg), bg, true), text);
                }
            },
            None => {},
        }
        assert(spans_text(spans@) =~= p[0] + p[1] + p[2] + p[3] + p[4]);
        // Modified since last build
        if self.build_dirty {
            push_span(&mut spans, &mut used, make_style(Some(theme.modified_fg), bg, false), String::from_str("[modified] "));
        }
        assert(spans_text(spans@) =~= p[0] + p[1] + p[2] + p[3] + p[4] + p[5]);
        (spans, used)
    }

    /// The status bar's spans for a bar `width` columns wide; `building`
    /// tells whether a build is running.
    pub fn status_bar(&self, theme: &Theme, building: bool, width: u16) -> (r: Vec<
        (SpanStyle, String),
    >)
        requires
            self.cursor.line < usize::MAX,
            self.cursor.col < usize::MAX,
        ensures
            spans_text(r@) == status_view(self, *theme, building, width as int),
    {
        let base = make_style(Some(theme.status_fg), Some(theme.status_bg), false);
        let (mut spans, used) = self.status_left_spans(theme, building);
        // Right section: position + mode
        let mut right = usize_to_string(self.cursor.line + 1);
        right.append(":");
        let col = usize_to_string(self.cursor.col + 1);
        right.append(col.as_str());
        right.append("  NORMAL");
        let right_bytes = right.as_str().as_bytes().len();
        // Pad so that the right section is right-aligned
        let pad_len = (width as usize).saturating_sub(used.saturating_add(right_bytes).saturating_add(1));
        let pad = repeat_char(' ', pad_len);
        spans.push((base, pad));
        let mut tail = String::from_str(" ");
        tail.append(right.as_str());
        spans.push((base, tail));
        assert(spans_text(spans@) =~= status_view(self, *theme, building, width as int));
        spans
    }
}

/// When the bar is wide enough for both parts, its right part ends at the
/// right edge: the bar's bytes fill its width exactly.
pub proof fn law_status_bar_fills_width(e: &App, theme: Theme, building: bool, width: int)
    requires
        text_bytes(status_left(e, theme, building)) + encode_utf8(status_right(e)).len() + 1
            <= width,
    ensures
        text_bytes(status_view(e, theme, building, width)) == width,
{
    let base = style(Some(theme.status_fg), Some(theme.status_bg), false);
    let left = status_left(e, theme, building);
    let right = status_right(e);
    let pad = (width - (text_bytes(left) + encode_utf8(right).len() + 1)) as nat;
    let a = left.push((base, spaces(pad)));
    let v = a.push((base, " "@ + right));
    assert(status_view(e, theme, building, width) =~= v);
    lemma_text_bytes_push(left, (base, spaces(pad)));
    lemma_text_bytes_push(a, (base, " "@ + right));
    assert(vstd::utf8::is_ascii_chars(spaces(pad)));
    crate::text_model::lemma_encode_ascii(spaces(pad));
    crate::text_model::lemma_encode_concat(" "@, right);
    reveal_strlit(" ");
    assert(vstd::utf8::is_ascii_chars(" "@));
    crate::text_model::lemma_encode_ascii(" "@);
}

// ── the command bar ───────────────────────────────────────────────────

/// The prompt of a command's input line.
pub open spec fn prompt_of(kind: CommandKind) -> Seq<char> {
    match kind {
        CommandKind::SaveAs { .. } => "Save As: "@,
        CommandKind::Open => "Open: "@,
        CommandKind::Find => "Find: "@,
        CommandKind::GotoLine => "Go To Line: "@,
    }
}

fn prompt_text(kind: CommandKind) -> (s: &'static str)
    ensures
        s@ == prompt_of(kind),
{
    match kind {
        CommandKind::SaveAs { .. } => "Save As: ",
        CommandKind::Open => "Open: ",
        CommandKind::Find => "Find: ",
        CommandKind::GotoLine => "Go To Line: ",
    }
}

/// The entry of the error list that the error view shows.
pub open spec fn shown_error(errors: Seq<(usize, String)>, selected: usize) -> int {
    if selected < errors.len() - 1 {
        selected as int
    } else {
        errors.len() - 1
    }
}

/// The command bar can be drawn: in the error view the shown entry's
/// message has a first line, and the entry count has a successor.
pub open spec fn command_bar_ok(e: &App) -> bool {
    e.mode matches Mode::ErrorView { errors, selected } ==> {
        &&& errors@.len() > 0
        &&& selected < usize::MAX
        &&& spec_lines(errors@[shown_error(errors@, selected)].1@).len() > 0
    }
}

/// The command bar of the current mode, and for a prompt the byte lengths
/// of the prompt and of its input, where the terminal cursor goes.
pub open spec fn command_bar_view(e: &App, theme: Theme) -> (
    Option<(SpanStyle, Seq<char>)>,
    Option<(nat, nat)>,
) {
    let bg = Some(theme.command_bg);
    match e.mode {
        Mode::Help => (
            Some(
                (
                    style(Some(Color::Rgb(180, 220, 255)), bg, false),
                    "μT keybindings — Esc to close"@,
                ),
            ),
            None,
        ),
        Mode::ErrorView { errors, selected } => (
            Some(
                (
                    style(Some(Color::Rgb(255, 150, 150)), bg, true),
                    "["@ + decimal((selected + 1) as nat) + "/"@ + decimal(errors@.len()) + "] "@
                        + spec_lines(errors@[shown_error(errors@, selected)].1@)[0],
                ),
            ),
            None,
        ),
        Mode::Command { input, kind } => (
            Some((style(Some(theme.command_fg), bg, false), prompt_of(kind) + input@)),
            Some((encode_utf8(prompt_of(kind)).len(), encode_utf8(input@).len())),
        ),
        Mode::Confirm { message, .. } => (
            Some((style(Some(Color::Rgb(255, 200, 100)), bg, true), message@)),
            None,
        ),
        Mode::Normal => (None, None),
    }
}

impl App {
    /// The command bar: the help title, the shown build error, the prompt
    /// with its input, or the question asked.
    pub fn command_bar(&self, theme: &Theme) -> (r: (Option<(SpanStyle, String)>, Option<(usize, usize)>))
        requires
            command_bar_ok(self),
        ensures
            ({
                let v = command_bar_view(self, *theme);
                &&& (match r.0 {
                    Some(p) => v.0 == Some((p.0, p.1@)),
                    None => v.0 is None,
                })
                &&& (match r.1 {
                    Some(c) => v.1 == Some((c.0 as nat, c.1 as nat)),
                    None => v.1 is None,
                })
            }),
    {
        let bg = Some(theme.command_bg);
        match &self.mode {
            Mode::Help => (
                Some(
                    (
                        make_style(Some(Color::Rgb(180, 220, 255)), bg, false),
                        String::from_str("μT keybindings — Esc to close"),
                    ),
                ),
                None,
            ),
            Mode::ErrorView { errors, selected } => {
                let last = errors.len() - 1;
                let shown = if *selected < last {
                    *selected
                } else {
                    last
                };
                let lines = split_lines(errors[shown].1.as_str());
                let mut text = String::from_str("[");
                let a = usize_to_string(*selected + 1);
                text.append(a.as_str());
                text.append("/");
                let b = usize_to_string(errors.len());
                text.append(b.as_str());
                text.append("] ");
                text.append(lines[0].as_str());
                (Some((make_style(Some(Color::Rgb(255, 150, 150)), bg, true), text)), None)
            },
            Mode::Command { input, kind } => {
                let prompt = prompt_text(*kind);
                let mut text = String::from_str(prompt);
                text.append(input.as_str());
                (
                    Some((make_style(Some(theme.command_fg), bg, false), text)),
                    Some((prompt.as_bytes().len(), input.as_str().as_bytes().len())),
                )
            },
            Mode::Confirm { message, .. } => (
                Some(
                    (
                        make_style(Some(Color::Rgb(255, 200, 100)), bg, true),
                        String::from_str(message.as_str()),
                    ),
                ),
                None,
            ),
            Mode::Normal => (None, None),
        }
    }

    /// Whether the command bar can be drawn (see `command_bar_ok`).
    pub fn command_bar_drawable(&self) -> (b: bool)
        ensures
            b == command_bar_ok(self),
    {
        match &self.mode {
            Mode::ErrorView { errors, selected } => {
                if errors.len() == 0 || *selected == usize::MAX {
                    return false;
                }
                let last = errors.len() - 1;
                let shown = if *selected < last {
                    *selected
                } else {
                    last
                };
                let lines = split_lines(errors[shown].1.as_str());
                lines.len() > 0
            },
            _ => true,
        }
    }

    /// Lines taken by the bars below the text: the status bar, and the
    /// command bar in any mode but normal.
    pub fn bar_lines(&self) -> (h: u16)
        ensures
            h == if self.mode is Normal {
                1u16
            } else {
                2u16
            },
    {
        match self.mode {
            Mode::Normal => 1,
            _ => 2,
        }
    }

    /// The first text line on screen: the scroll position, kept on the
    /// text.
    pub fn view_top_line(&self) -> (l: usize)
        ensures
            l == crate::cursor::min_int(
                self.scroll.line as int,
                sat_sub(
                    if crate::text_model::line_count(self.buffer@) >= 1 {
                        crate::text_model::line_count(self.buffer@) as int
                    } else {
                        1
                    },
                    1,
                ),
            ),
    {
        let count = self.buffer.line_count();
        let total = if count >= 1 {
            count
        } else {
            1
        };
        let last = total - 1;
        if self.scroll.line < last {
            self.scroll.line
        } else {
            last
        }
    }

    /// The background of text line `line_idx`: the cursor line's colour on
    /// the cursor's line, else the terminal's own.
    pub fn line_background(&self, line_idx: usize, theme: &Theme) -> (c: Color)
        ensures
            c == if line_idx == self.cursor.line {
                theme.cursor_line_bg
            } else {
                Color::Reset
            },
    {
        if line_idx == self.cursor.line {
            theme.cursor_line_bg
        } else {
            Color::Reset
        }
    }
}

// ── the text area ─────────────────────────────────────────────────────

/// The smaller of two numbers.
pub open spec fn min_of(a: int, b: int) -> int {
    if a <= b {
        a
    } else {
        b
    }
}

/// The cursor's line is among the `vis_lines` lines shown from
/// `scroll_line` on.
pub open spec fn cursor_shown(e: &App, scroll_line: usize, vis_lines: usize) -> bool {
    scroll_line <= e.cursor.line && e.cursor.line - scroll_line < vis_lines
}

/// Where a ghost text `glen` bytes long goes in a text area `width`
/// columns wide: its column and row in the area and its width, when it
/// fits right of the cursor.
pub open spec fn ghost_layout(
    e: &App,
    scroll_line: usize,
    scroll_col: usize,
    vis_lines: usize,
    width: u16,
    glen: usize,
) -> Option<(u16, u16, u16)> {
    if !cursor_shown(e, scroll_line, vis_lines) {
        None
    } else {
        let row = (e.cursor.line - scroll_line) as u16;
        let col = sat_sub(e.cursor.col as int, scroll_col as int) as u16;
        let x = min_of(col as int, sat_sub(width as int, 2));
        let max_w = min_of(width - min_of(col as int, sat_sub(width as int, 1)), (glen as u16) as int);
        if x + 2 < width && max_w > 0 {
            Some((x as u16, row, max_w as u16))
        } else {
            None
        }
    }
}

/// The ghost text shown in `w` columns: cut to `w - 1` bytes and an
/// ellipsis when it is longer than `w`.
pub open spec fn ghost_display(g: Seq<char>, glen: usize, w: u16) -> Seq<char> {
    if (glen as u16) > w {
        vstd::utf8::decode_utf8(encode_utf8(g).take(w - 1)) + "…"@
    } else {
        g
    }
}

/// The ghost text can be cut where it is shown.
pub open spec fn ghost_ok(e: &App, scroll_line: usize, scroll_col: usize, vis_lines: usize, width: u16) -> bool {
    match e.ghost_text {
        Some(g) => {
            let glen = encode_utf8(g@).len() as usize;
            match ghost_layout(e, scroll_line, scroll_col, vis_lines, width, glen) {
                Some(l) => (glen as u16) > l.2 ==> char_boundary(encode_utf8(g@), l.2 - 1),
                None => true,
            }
        },
        None => true,
    }
}

/// The part of the selection `[sel.0, sel.1)` on the line at bytes
/// `[line_start, line_start + line_len)`, relative to the line.
pub open spec fn selection_on_line(sel: Option<(usize, usize)>, line_start: int, line_len: int) -> Option<
    (int, int),
> {
    match sel {
        Some(p) => {
            let lo = if p.0 > line_start {
                p.0 as int
            } else {
                line_start
            };
            let hi = if p.1 < line_start + line_len {
                p.1 as int
            } else {
                line_start + line_len
            };
            if lo < hi {
                Some((lo - line_start, hi - line_start))
            } else {
                None
            }
        },
        None => None,
    }
}

/// The part of the selection `sel` on a line (see `selection_on_line`).
pub fn line_selection(sel: Option<(usize, usize)>, line_start: usize, line_len: usize) -> (r: Option<
    (usize, usize),
>)
    requires
        line_start + line_len <= usize::MAX,
    ensures
        match r {
            Some(p) => selection_on_line(sel, line_start as int, line_len as int) == Some(
                (p.0 as int, p.1 as int),
            ),
            None => selection_on_line(sel, line_start as int, line_len as int) is None,
        },
{
    match sel {
        Some((sel_start, sel_end)) => {
            let line_end = line_start + line_len;
            let lo = if sel_start > line_start {
                sel_start
            } else {
                line_start
            };
            let hi = if sel_end < line_end {
                sel_end
            } else {
                line_end
            };
            if lo < hi {
                Some((lo - line_start, hi - line_start))
            } else {
                None
            }
        },
        None => None,
    }
}

/// The shown part of text line `line_idx` with highlighted spans `sv`:
/// the line's background, the selection `sel` (a byte range of the text)
/// painted over the part of it on this line, then clipped to the
/// `vis_cols` columns from `scroll_col`.
pub open spec fn visible_line_view(
    e: &App,
    line_idx: int,
    sv: Seq<(SpanStyle, Seq<u8>)>,
    sel: Option<(usize, usize)>,
    theme: Theme,
    scroll_col: usize,
    vis_cols: usize,
) -> Seq<(SpanStyle, Seq<u8>)> {
    let t = e.buffer@;
    let bg = if line_idx == e.cursor.line {
        theme.cursor_line_bg
    } else {
        Color::Reset
    };
    let painted = match selection_on_line(
        sel,
        line_byte(t, line_idx),
        line_len_or_zero(t, line_idx),
    ) {
        Some(r) => overlay_view(sv, r.0, r.1, theme.selection_bg, bg),
        None => bg_view(sv, bg),
    };
    clip_view(painted, scroll_col as int, window_end(scroll_col, vis_cols))
}

/// The line can be drawn: its end is a `usize`, and neither the selection
/// nor the clipping cuts a span inside a character.
pub open spec fn visible_line_ok(
    e: &App,
    line_idx: int,
    sv: Seq<(SpanStyle, Seq<u8>)>,
    sel: Option<(usize, usize)>,
    theme: Theme,
    scroll_col: usize,
    vis_cols: usize,
) -> bool {
    let t = e.buffer@;
    let bg = if line_idx == e.cursor.line {
        theme.cursor_line_bg
    } else {
        Color::Reset
    };
    let ls = line_byte(t, line_idx);
    let ll = line_len_or_zero(t, line_idx);
    &&& ls + ll <= usize::MAX
    &&& match selection_on_line(sel, ls, ll) {
        Some(r) => total_len(sv) <= usize::MAX && overlay_ok(sv, r.0, r.1),
        None => true,
    }
    &&& {
        let painted = match selection_on_line(sel, ls, ll) {
            Some(r) => overlay_view(sv, r.0, r.1, theme.selection_bg, bg),
            None => bg_view(sv, bg),
        };
        total_len(painted) <= usize::MAX && clip_ok(
            painted,
            scroll_col as int,
            window_end(scroll_col, vis_cols),
        )
    }
}

impl App {
    /// The text lines on screen from `scroll_line` on, at most `vis_lines`
    /// of them, without their line breaks.
    pub fn visible_lines(&self, scroll_line: usize, vis_lines: usize) -> (r: Vec<String>)
        requires
            self.buffer.wf(),
        ensures
            r@.len() == min_of(vis_lines as int, sat_sub(line_count(self.buffer@) as int, scroll_line as int)),
            forall|i: int|
                0 <= i < r@.len() ==> encode_utf8(#[trigger] r@[i]@) == line_content(
                    self.buffer@,
                    (scroll_line + i) as nat,
                ),
    {
        let total = self.buffer.line_count();
        let mut out: Vec<String> = Vec::new();
        let mut i: usize = 0;
        while i < vis_lines && scroll_line < total && i < total - scroll_line
            invariant
                i <= vis_lines,
                self.buffer.wf(),
                total == line_count(self.buffer@),
                scroll_line < total ==> i <= total - scroll_line,
                scroll_line >= total ==> i == 0,
                out@.len() == i,
                forall|j: int|
                    0 <= j < i ==> encode_utf8(#[trigger] out@[j]@) == line_content(
                        self.buffer@,
                        (scroll_line + j) as nat,
                    ),
            decreases vis_lines - i,
        {
            out.push(self.buffer.line(scroll_line + i));
            i += 1;
        }
        out
    }

    /// The spans to draw for text line `line_idx` from its highlighted
    /// spans (see `visible_line_view`), or `None` when the line cannot be
    /// drawn (see `visible_line_ok`).
    pub fn visible_line(
        &self,
        line_idx: usize,
        spans: &Vec<(SpanStyle, String)>,
        sel: Option<(usize, usize)>,
        theme: &Theme,
        scroll_col: usize,
        vis_cols: usize,
    ) -> (r: Option<Vec<(SpanStyle, String)>>)
        ensures
            match r {
                Some(v) => spans_view(v@) == visible_line_view(
                    self,
                    line_idx as int,
                    spans_view(spans@),
                    sel,
                    *theme,
                    scroll_col,
                    vis_cols,
                ),
                None => !visible_line_ok(
                    self,
                    line_idx as int,
                    spans_view(spans@),
                    sel,
                    *theme,
                    scroll_col,
                    vis_cols,
                ),
            },
    {
        let bg = self.line_background(line_idx, theme);
        let line_start = self.buffer.line_to_byte(line_idx);
        let line_len = self.buffer.line_len_bytes(line_idx);
        if line_start > usize::MAX - line_len {
            return None;
        }
        let painted = match line_selection(sel, line_start, line_len) {
            Some((lo, hi)) => {
                if !overlay_cuts_valid(spans, lo, hi) {
                    return None;
                }
                span_bg_overlay(spans, lo, hi, theme.selection_bg, bg)
            },
            None => span_bg(spans, bg),
        };
        if !clip_cuts_valid(&painted, scroll_col, vis_cols) {
            return None;
        }
        Some(clip_spans_horiz(&painted, scroll_col, vis_cols))
    }
}

impl App {
    /// The terminal cursor's column and row in the text area, when the
    /// cursor's line is on screen: its column left of the scroll position
    /// is cut off, and it stays inside the area.
    pub fn cursor_cell(&self, scroll_line: usize, scroll_col: usize, vis_lines: usize, width: u16) -> (r: Option<(u16, u16)>)
        ensures
            r == if cursor_shown(self, scroll_line, vis_lines) {
                Some(
                    (
                        min_of(
                            sat_sub(self.cursor.col as int, scroll_col as int) as u16 as int,
                            sat_sub(width as int, 1),
                        ) as u16,
                        (self.cursor.line - scroll_line) as u16,
                    ),
                )
            } else {
                None
            },
    {
        if self.cursor.line >= scroll_line && self.cursor.line - scroll_line < vis_lines {
            let screen_row = (self.cursor.line - scroll_line) as u16;
            let screen_col = self.cursor.col.saturating_sub(scroll_col) as u16;
            let limit = width.saturating_sub(1);
            Some((if screen_col < limit { screen_col } else { limit }, screen_row))
        } else {
            None
        }
    }

    /// The ghost text as shown after the cursor: its column, row and width
    /// in the text area and its text, when it fits.
    pub fn ghost_cell(&self, scroll_line: usize, scroll_col: usize, vis_lines: usize, width: u16) -> (r: Option<(u16, u16, u16, String)>)
        requires
            ghost_ok(self, scroll_line, scroll_col, vis_lines, width),
        ensures
            match self.ghost_text {
                Some(g) => {
                    let glen = encode_utf8(g@).len() as usize;
                    match ghost_layout(self, scroll_line, scroll_col, vis_lines, width, glen) {
                        Some(l) => r matches Some(c) && (c.0, c.1, c.2) == l && c.3@ == ghost_display(g@, glen, l.2),
                        None => r is None,
                    }
                },
                None => r is None,
            },
    {
        let ghost_text = match &self.ghost_text {
            Some(g) => g,
            None => return None,
        };
        if !(self.cursor.line >= scroll_line && self.cursor.line - scroll_line < vis_lines) {
            return None;
        }
        let glen = ghost_text.as_str().as_bytes().len();
        let screen_row = (self.cursor.line - scroll_line) as u16;
        let screen_col = self.cursor.col.saturating_sub(scroll_col) as u16;
        let w2 = width.saturating_sub(2);
        let x = if screen_col < w2 { screen_col } else { w2 };
        if !((x as u32) + 2 < width as u32) {
            return None;
        }
        let w1 = width.saturating_sub(1);
        let shown = if screen_col < w1 { screen_col } else { w1 };
        let room = width - shown;
        let len16 = glen as u16;
        let max_w = if room < len16 { room } else { len16 };
        if max_w == 0 {
            return None;
        }
        let display = if len16 > max_w {
            let cut = (max_w - 1) as usize;
            proof {
                vstd::utf8::encode_utf8_valid_utf8(ghost_text@);
                crate::text_model::lemma_boundary_is_char_boundary(encode_utf8(ghost_text@), cut as int);
            }
            let (head, _) = ghost_text.as_str().split_at(cut);
            let mut d = String::from_str(head);
            proof {
                vstd::utf8::encode_utf8_decode_utf8(head@);
                assert(encode_utf8(head@) =~= encode_utf8(ghost_text@).take(cut as int));
            }
            d.append("…");
            d
        } else {
            ghost_text.clone()
        };
        Some((x, screen_row, max_w, display))
    }

    /// Whether the ghost text can be drawn (see `ghost_ok`).
    pub fn ghost_drawable(&self, scroll_line: usize, scroll_col: usize, vis_lines: usize, width: u16) -> (b: bool)
        ensures
            b == ghost_ok(self, scroll_line, scroll_col, vis_lines, width),
    {
        let ghost_text = match &self.ghost_text {
            Some(g) => g,
            None => return true,
        };
        if !(self.cursor.line >= scroll_line && self.cursor.line - scroll_line < vis_lines) {
            return true;
        }
        let bytes = ghost_text.as_str().as_bytes();
        let glen = bytes.len();
        let screen_col = self.cursor.col.saturating_sub(scroll_col) as u16;
        let w2 = width.saturating_sub(2);
        let x = if screen_col < w2 { screen_col } else { w2 };
        if !((x as u32) + 2 < width as u32) {
            return true;
        }
        let w1 = width.saturating_sub(1);
        let shown = if screen_col < w1 { screen_col } else { w1 };
        let room = width - shown;
        let len16 = glen as u16;
        let max_w = if room < len16 { room } else { len16 };
        if max_w == 0 || len16 <= max_w {
            return true;
        }
        let cut = (max_w - 1) as usize;
        cut == glen || !(0x80u8 <= bytes[cut] && bytes[cut] <= 0xbfu8)
    }
}

// ── the help page ─────────────────────────────────────────────────────

pub const HELP_TEXT: &'static str = "Ctrl+S    Save                          Ctrl+O    Open .tex
Ctrl+N    New file                      Ctrl+Q    Quit
Ctrl+Z    Undo                          Ctrl+Y    Redo
Ctrl+C    Copy                          Ctrl+X    Cut
Ctrl+V    Paste                         Ctrl+A    Select all
Ctrl+F    Find                          Ctrl+G    Go to line
Ctrl+B    Build (pdflatex)              Ctrl+P    Toggle Zathura preview
Ctrl+E    View build errors             Ctrl+H    This help
Shift+↑↓←→  Extend selection            Tab       Accept ghost / 4 spaces
↑↓←→     Move cursor                   Ctrl+↑↓   Scroll view
{ → {}   ( → ()   $ → $$              \\begin{X}} → \\end{X} ghost";

/// The help page, `width` columns wide: a title, a rule, and the key
/// bindings one per line.
pub open spec fn help_view(width: int) -> Seq<(SpanStyle, Seq<char>)> {
    let items = spec_lines(HELP_TEXT@);
    seq![
        (style(Some(Color::Rgb(200, 200, 220)), None, true), "μT — keybindings (Esc to close)"@),
        (style(Some(Color::Rgb(60, 60, 80)), None, false), Seq::new(width as nat, |i: int| '─')),
    ] + Seq::new(items.len(), |j: int| (style(Some(Color::Rgb(180, 180, 200)), None, false), items[j]))
}

/// The lines of the help page for a page `width` columns wide.
pub fn help_lines(width: u16) -> (r: Vec<(SpanStyle, String)>)
    ensures
        spans_text(r@) == help_view(width as int),
{
    let items = split_lines(HELP_TEXT);
    let mut lines: Vec<(SpanStyle, String)> = Vec::new();
    lines.push(
        (
            make_style(Some(Color::Rgb(200, 200, 220)), None, true),
            String::from_str("μT — keybindings (Esc to close)"),
        ),
    );
    lines.push((make_style(Some(Color::Rgb(60, 60, 80)), None, false), repeat_char('─', width as usize)));
    let item_style = make_style(Some(Color::Rgb(180, 180, 200)), None, false);
    let n = items.len();
    let mut i: usize = 0;
    let ghost view = help_view(width as int);
    assert(spans_text(lines@)[0] == view[0] && spans_text(lines@)[1] == view[1]);
    while i < n
        invariant
            i <= n == items@.len() == spec_lines(HELP_TEXT@).len(),
            view == help_view(width as int),
            item_style == style(Some(Color::Rgb(180, 180, 200)), None, false),
            forall|j: int| 0 <= j < n ==> #[trigger] items@[j]@ == spec_lines(HELP_TEXT@)[j],
            lines@.len() == i + 2,
            forall|j: int| 0 <= j < i + 2 ==> (#[trigger] lines@[j].0, lines@[j].1@) == view[j],
        decreases n - i,
    {
        let text = String::from_str(items[i].as_str());
        lines.push((item_style, text));
        i += 1;
    }
    assert(spans_text(lines@) =~= help_view(width as int));
    lines
}

} // verus!
