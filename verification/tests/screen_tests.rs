use mu_t::config::{Color, Theme};
use mu_t::app::{CommandKind, App, Mode};
use mu_t::highlight::{
    highlight_style, is_latex, spans_of_pieces, theme_source, HighlightPiece, Highlighter, ThemeSource,
};
use mu_t::buffer::Buffer;
use mu_t::screen::{gutter_lines, help_lines, line_selection, HELP_TEXT};
use mu_t::spans::{clip_cuts_valid, clip_spans_horiz, overlay_cuts_valid, span_bg, span_bg_overlay, SpanStyle};
use mu_t::latex::{CompileError, CompileResult};

fn empty_app() -> App {
    let mut e = App::new(80, 24, 4);
    e.buffer = Buffer::new();
    e
}

fn plain() -> SpanStyle {
    SpanStyle { fg: None, bg: None, bold: false, italic: false, underlined: false }
}

fn fg_bg(fg: Color, bg: Color, bold: bool) -> SpanStyle {
    SpanStyle { fg: Some(fg), bg: Some(bg), bold, italic: false, underlined: false }
}

fn texts(v: &[(SpanStyle, String)]) -> Vec<&str> {
    v.iter().map(|(_, t)| t.as_str()).collect()
}

#[test]
fn clipping_keeps_the_visible_columns() {
    let spans = vec![(plain(), String::from("hello")), (plain(), String::from("world"))];
    assert!(clip_cuts_valid(&spans, 3, 4));
    let c = clip_spans_horiz(&spans, 3, 4);
    assert_eq!(texts(&c), vec!["lo", "wo"]);
    // the pieces are exactly the visible window of the line
    assert_eq!(texts(&c).concat(), &"helloworld"[3..7]);
    let all = clip_spans_horiz(&spans, 0, usize::MAX);
    assert_eq!(texts(&all), vec!["hello", "world"]);
    let none = clip_spans_horiz(&spans, 10, 5);
    assert!(none.is_empty());
}

#[test]
fn clipping_inside_a_character_is_refused() {
    let spans = vec![(plain(), String::from("é"))];
    assert!(!clip_cuts_valid(&spans, 1, 4));
    assert!(clip_cuts_valid(&spans, 2, 4));
}

#[test]
fn backgrounds_are_painted() {
    let spans = vec![(plain(), String::from("ab"))];
    let p = span_bg(&spans, Color::Reset);
    assert_eq!(p[0].0.bg, Some(Color::Reset));
    assert_eq!(p[0].1, "ab");

    let sel = Color::Rgb(1, 1, 1);
    let def = Color::Rgb(2, 2, 2);
    let line = vec![(plain(), String::from("hel")), (plain(), String::from("lo"))];
    assert!(overlay_cuts_valid(&line, 1, 4));
    let o = span_bg_overlay(&line, 1, 4, sel, def);
    assert_eq!(texts(&o), vec!["h", "el", "l", "o"]);
    // painting keeps the text
    assert_eq!(texts(&o).concat(), "hello");
    let bgs: Vec<Option<Color>> = o.iter().map(|(s, _)| s.bg).collect();
    assert_eq!(bgs, vec![Some(def), Some(sel), Some(sel), Some(def)]);
}

#[test]
fn selection_part_of_a_line() {
    assert_eq!(line_selection(Some((2, 10)), 4, 3), Some((0, 3)));
    assert_eq!(line_selection(Some((5, 6)), 4, 3), Some((1, 2)));
    assert_eq!(line_selection(Some((0, 4)), 4, 3), None);
    assert_eq!(line_selection(None, 4, 3), None);
}

#[test]
fn gutter_numbers_lines_and_marks_the_end() {
    let t = Theme::dark();
    let g = gutter_lines(&t, 0, 3, 1, 5, 4);
    assert_eq!(texts(&g), vec![" 1", " 2", " 3", "  ~ "]);
    assert_eq!(g[1].0, fg_bg(Color::Rgb(180, 180, 180), t.cursor_line_bg, false));
    assert_eq!(g[0].0, fg_bg(t.line_num_fg, t.gutter_bg, false));
    assert_eq!(g[3].0, fg_bg(t.line_num_fg, t.line_num_bg, false));
    let short = gutter_lines(&t, 1, 3, 0, 1, 4);
    assert_eq!(texts(&short), vec![" 2"]);
}

#[test]
fn status_bar_aligns_the_position_right() {
    let t = Theme::dark();
    let e = empty_app();
    let s = e.status_bar(&t, false, 40);
    assert_eq!(texts(&s), vec![" untitled ", "                  ", " 1:1  NORMAL"]);
    let total: usize = s.iter().map(|(_, x)| x.len()).sum();
    assert_eq!(total, 40);
}

#[test]
fn status_bar_shows_message_build_state_and_errors() {
    let t = Theme::dark();
    let mut e = empty_app();
    e.buffer.insert(0, "x");
    e.set_message("  Saved ");
    e.build_dirty = true;
    e.last_compile = Some(CompileResult {
        success: false,
        pdf_data: None,
        errors: vec![CompileError { line: 0, message: String::from("m") }],
    });
    let s = e.status_bar(&t, true, 20);
    assert_eq!(
        texts(&s),
        vec![" untitled ", "•", " ", " Saved ", "[Building…] ", "[1 err] ", "[modified] ", "", " 1:1  NORMAL"]
    );
    assert!(s[1].0.bold);
    assert_eq!(s[1].0.fg, Some(t.modified_fg));
}

#[test]
fn command_bar_shows_prompt_and_cursor() {
    let t = Theme::dark();
    let mut e = empty_app();
    e.mode = Mode::Command { input: String::from("ab"), kind: CommandKind::Find };
    assert!(e.command_bar_drawable());
    let (bar, cursor) = e.command_bar(&t);
    let (st, text) = bar.unwrap();
    assert_eq!(text, "Find: ab");
    assert_eq!(st, fg_bg(t.command_fg, t.command_bg, false));
    assert_eq!(cursor, Some((6, 2)));

    e.mode = Mode::ErrorView {
        errors: vec![(0, String::from("line 3: bad\nmore")), (1, String::from("line 9: worse"))],
        selected: 5,
    };
    assert!(e.command_bar_drawable());
    let (bar, cursor) = e.command_bar(&t);
    assert_eq!(bar.unwrap().1, "[6/2] line 9: worse");
    assert_eq!(cursor, None);

    e.mode = Mode::ErrorView { errors: vec![(0, String::new())], selected: 0 };
    assert!(!e.command_bar_drawable());

    e.mode = Mode::Normal;
    assert!(e.command_bar(&t).0.is_none());
}

#[test]
fn help_page_lists_the_bindings() {
    let h = help_lines(10);
    assert_eq!(h[0].1, "μT — keybindings (Esc to close)");
    assert_eq!(h[1].1, "──────────");
    assert_eq!(h.len(), 2 + HELP_TEXT.lines().count());
    assert_eq!(h[2].1, HELP_TEXT.lines().next().unwrap());
}

#[test]
fn cursor_and_ghost_cells() {
    let mut e = empty_app();
    e.buffer.insert(0, "\\begin{itemize}");
    e.cursor.col = 15;
    assert_eq!(e.cursor_cell(0, 0, 10, 40), Some((15, 0)));
    assert_eq!(e.cursor_cell(0, 10, 10, 40), Some((5, 0)));
    assert_eq!(e.cursor_cell(0, 0, 10, 8), Some((7, 0)));
    assert_eq!(e.cursor_cell(1, 0, 10, 40), None);

    e.ghost_text = Some(String::from("\\end{itemize}"));
    assert!(e.ghost_drawable(0, 0, 10, 40));
    let (x, y, w, text) = e.ghost_cell(0, 0, 10, 40).unwrap();
    assert_eq!((x, y, w), (15, 0, 13));
    assert_eq!(text, "\\end{itemize}");
    // a narrow area cuts the ghost text
    let (x, _, w, text) = e.ghost_cell(0, 0, 10, 20).unwrap();
    assert_eq!((x, w), (15, 5));
    assert_eq!(text, "\\end…");
    assert!(e.ghost_cell(0, 0, 10, 16).is_none());
}

#[test]
fn view_helpers() {
    let mut e = empty_app();
    assert_eq!(e.bar_lines(), 1);
    e.mode = Mode::Help;
    assert_eq!(e.bar_lines(), 2);
    e.scroll.line = 7;
    assert_eq!(e.view_top_line(), 0);
    assert_eq!(e.line_background(0, &Theme::dark()), Theme::dark().cursor_line_bg);
    assert_eq!(e.line_background(1, &Theme::dark()), Color::Reset);
}

#[test]
fn highlighting_inputs() {
    let s = highlight_style((1, 2, 3), (4, 5, 6, 0), true, false, true);
    assert_eq!(s.fg, Some(Color::Rgb(1, 2, 3)));
    assert_eq!(s.bg, None);
    assert!(s.bold && !s.italic && s.underlined);
    let t = highlight_style((1, 2, 3), (4, 5, 6, 255), false, true, false);
    assert_eq!(t.bg, Some(Color::Rgb(4, 5, 6)));

    let mut b = Buffer::new();
    assert!(is_latex(&b));
    b.set_path(Some(String::from("notes.md")));
    assert!(!is_latex(&b));
    b.set_path(Some(String::from("Makefile")));
    assert!(is_latex(&b));
    b.set_path(Some(String::from("a.tex")));
    assert!(is_latex(&b));
}

#[test]
fn highlighter_styles_each_visible_line() {
    let h = Highlighter::new();
    let lines = vec![String::from("\\section{A} % note"), String::from("x")];
    let out = h.highlight_lines(&lines, true);
    assert_eq!(out.len(), 2);
    let first: String = out[0].iter().map(|(_, t)| t.as_str()).collect();
    assert_eq!(first, "\\section{A} % note\n");
    let second: String = out[1].iter().map(|(_, t)| t.as_str()).collect();
    assert_eq!(second, "x");
    // LaTeX gets more than one colour on the first line
    assert!(out[0].len() > 1);
    assert!(out[0].iter().all(|(s, _)| s.fg.is_some()));
    let plain = h.highlight_lines(&lines, false);
    assert_eq!(plain[0].len(), 1);
    // one entry per line, an empty last line too
    let two = h.highlight_lines(&vec![String::from("a"), String::new()], false);
    assert_eq!(two.len(), 2);
    let t0: String = two[0].iter().map(|(_, t)| t.as_str()).collect();
    assert_eq!(t0, "a\n");
    assert!(two[1].is_empty());
    assert!(h.highlight_lines(&Vec::new(), true).is_empty());
}

#[test]
fn visible_lines_are_the_text_lines_on_screen() {
    let mut e = empty_app();
    e.buffer = Buffer::load_from_str("one\ntwo\nthree");
    assert_eq!(e.visible_lines(1, 5), vec![String::from("two"), String::from("three")]);
    assert_eq!(e.visible_lines(0, 1), vec![String::from("one")]);
    assert!(e.visible_lines(7, 3).is_empty());
}

#[test]
fn a_visible_line_gets_its_background_selection_and_clipping() {
    let t = Theme::dark();
    let mut e = empty_app();
    e.buffer = Buffer::load_from_str("abcd\nefgh");
    let spans = vec![(plain(), String::from("efgh"))];
    // line 1 is not the cursor's line; bytes 6..8 of the text are selected
    let shown = e.visible_line(1, &spans, Some((6, 8)), &t, 0, 80).unwrap();
    let texts: Vec<&str> = shown.iter().map(|(_, s)| s.as_str()).collect();
    assert_eq!(texts, vec!["e", "fg", "h"]);
    assert_eq!(shown[0].0.bg, Some(Color::Reset));
    assert_eq!(shown[1].0.bg, Some(t.selection_bg));
    // the cursor's line, clipped to two columns from column 1
    let shown = e.visible_line(0, &vec![(plain(), String::from("abcd"))], None, &t, 1, 2).unwrap();
    assert_eq!(shown.len(), 1);
    assert_eq!(shown[0].1, "bc");
    assert_eq!(shown[0].0.bg, Some(t.cursor_line_bg));
    // a clip inside a character cannot be drawn
    e.buffer = Buffer::load_from_str("é");
    assert!(e.visible_line(0, &vec![(plain(), String::from("é"))], None, &t, 1, 5).is_none());
}

#[test]
fn the_configured_theme_is_bundled_a_file_or_the_fallback() {
    assert!(matches!(theme_source("Solarized (dark)"), ThemeSource::Bundled(n) if n == "Solarized (dark)"));
    assert!(matches!(theme_source("/home/me/my.tmTheme"), ThemeSource::File(p) if p == "/home/me/my.tmTheme"));
    assert!(matches!(theme_source("no-such-theme"), ThemeSource::Fallback));
    assert!(matches!(theme_source("dark.txt"), ThemeSource::Fallback));
    // a theme file that does not parse gives the fallback theme's colours
    let lines = vec![String::from("\\section{A}")];
    let fallback = Highlighter::with_theme("no-such-theme", None).highlight_lines(&lines, true);
    let broken = Highlighter::with_theme("x.tmTheme", Some(b"not a theme".to_vec())).highlight_lines(&lines, true);
    let inspired = Highlighter::with_theme("InspiredGitHub", None).highlight_lines(&lines, true);
    assert_eq!(fallback, inspired);
    assert_eq!(broken, inspired);
    let ocean = Highlighter::with_theme("base16-ocean.dark", None).highlight_lines(&lines, true);
    assert_ne!(ocean, inspired);
}

#[test]
fn pieces_become_styled_spans() {
    let pieces = vec![
        HighlightPiece { fg: (1, 2, 3), bg: (0, 0, 0, 0), font: 1, text: String::from("ab") },
        HighlightPiece { fg: (4, 5, 6), bg: (7, 8, 9, 255), font: 6, text: String::from("c") },
    ];
    let spans = spans_of_pieces(&pieces);
    assert_eq!(spans.len(), 2);
    assert_eq!(spans[0].1, "ab");
    assert_eq!(spans[0].0.fg, Some(Color::Rgb(1, 2, 3)));
    assert_eq!(spans[0].0.bg, None);
    assert!(spans[0].0.bold && !spans[0].0.italic && !spans[0].0.underlined);
    assert_eq!(spans[1].0.bg, Some(Color::Rgb(7, 8, 9)));
    assert!(!spans[1].0.bold && spans[1].0.italic && spans[1].0.underlined);
}
