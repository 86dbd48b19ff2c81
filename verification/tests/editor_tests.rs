use mu_t::background::PreviewLaunch;
use mu_t::buffer::Buffer;
use mu_t::cursor::Cursor;
use mu_t::app::{
    CommandKind, App, Effect, Key, KeyCode, Mode, LATEX_TEMPLATE, MOD_CONTROL, MOD_NONE,
    MOD_SHIFT,
};
use mu_t::keys::InputEvent;
use mu_t::latex::{CompileError, CompileResult};

fn key(code: KeyCode, modifiers: u8) -> Key {
    Key { code, modifiers }
}

fn press(e: &mut App, code: KeyCode, modifiers: u8) -> Effect {
    let k = key(code, modifiers);
    assert!(e.key_applicable(k), "key not applicable here");
    e.handle_key(k)
}

fn type_str(e: &mut App, s: &str) {
    for c in s.chars() {
        press(e, KeyCode::Char(c), MOD_NONE);
    }
}

fn ctrl(e: &mut App, c: char) -> Effect {
    press(e, KeyCode::Char(c), MOD_CONTROL)
}

fn editor_with(text: &str) -> App {
    let mut e = App::new(80, 24, 4);
    e.buffer = Buffer::load_from_str(text);
    e
}

#[test]
fn a_new_editor_starts_from_the_latex_template() {
    let e = App::new(80, 24, 4);
    assert_eq!(e.buffer.to_string(), LATEX_TEMPLATE);
    assert!(e.buffer.path().is_none());
    assert!(e.running);
    assert!(matches!(e.mode, Mode::Normal));
    assert_eq!((e.cursor.line, e.cursor.col), (0, 0));
    assert!(!e.history.can_undo());
    assert_eq!(e.tab_width, 4);
}

#[test]
fn tab_inserts_tab_width_spaces() {
    let mut e = editor_with("x");
    e.tab_width = 2;
    press(&mut e, KeyCode::Tab, MOD_NONE);
    assert_eq!(e.buffer.to_string(), "  x");
    assert_eq!(e.cursor.col, 2);
    let mut f = editor_with("");
    f.tab_width = 0;
    press(&mut f, KeyCode::Tab, MOD_NONE);
    assert_eq!(f.buffer.to_string(), "");
}

#[test]
fn typing_inserts_text_and_marks_the_build_stale() {
    let mut e = editor_with("");
    type_str(&mut e, "ab");
    assert_eq!(e.buffer.to_string(), "ab");
    assert_eq!(e.cursor.col, 2);
    assert!(e.buffer.modified());
    assert!(e.build_dirty);
    assert!(e.debounce_requested);
}

#[test]
fn braces_parens_and_dollars_close_themselves() {
    let mut e = editor_with("");
    type_str(&mut e, "{");
    assert_eq!(e.buffer.to_string(), "{}");
    assert_eq!(e.cursor.col, 1);
    type_str(&mut e, "(");
    assert_eq!(e.buffer.to_string(), "{()}");
    assert_eq!(e.cursor.col, 2);

    let mut d = editor_with("");
    type_str(&mut d, "$");
    assert_eq!(d.buffer.to_string(), "$$");
    assert_eq!(d.cursor.col, 1);
    // after a `$` no second one is added
    type_str(&mut d, "$");
    assert_eq!(d.buffer.to_string(), "$$$");
    assert_eq!(d.cursor.col, 2);
}

#[test]
fn undo_takes_back_an_auto_closed_pair() {
    let mut e = editor_with("ab");
    e.cursor.col = 1;
    type_str(&mut e, "{");
    assert_eq!(e.buffer.to_string(), "a{}b");
    ctrl(&mut e, 'z');
    assert_eq!(e.buffer.to_string(), "ab");
    assert_eq!((e.cursor.line, e.cursor.col), (0, 1));
    type_str(&mut e, "$");
    assert_eq!(e.buffer.to_string(), "a$$b");
    ctrl(&mut e, 'z');
    assert_eq!(e.buffer.to_string(), "ab");
}

#[test]
fn closing_brace_is_skipped_over() {
    let mut e = editor_with("");
    type_str(&mut e, "{x}");
    assert_eq!(e.buffer.to_string(), "{x}");
    assert_eq!(e.cursor.col, 3);
}

#[test]
fn begin_environment_offers_ghost_end_and_tab_accepts_it() {
    let mut e = editor_with("");
    type_str(&mut e, "\\begin{itemize}");
    assert_eq!(e.buffer.to_string(), "\\begin{itemize}");
    assert_eq!(e.ghost_text.as_deref(), Some("\\end{itemize}"));
    press(&mut e, KeyCode::Tab, MOD_NONE);
    assert_eq!(e.buffer.to_string(), "\\begin{itemize}\\end{itemize}");
    assert_eq!(e.cursor.col, 28);
    assert!(e.ghost_text.is_none());
}

#[test]
fn typing_a_letter_drops_the_ghost() {
    let mut e = editor_with("");
    type_str(&mut e, "\\begin{x}");
    assert!(e.ghost_text.is_some());
    type_str(&mut e, "a");
    assert!(e.ghost_text.is_none());
}

#[test]
fn tab_without_ghost_inserts_four_spaces() {
    let mut e = editor_with("");
    press(&mut e, KeyCode::Tab, MOD_NONE);
    assert_eq!(e.buffer.to_string(), "    ");
    assert_eq!(e.cursor.col, 4);
}

#[test]
fn typed_characters_undo_as_one_step_and_redo() {
    let mut e = editor_with("");
    type_str(&mut e, "abc");
    ctrl(&mut e, 'z');
    assert_eq!(e.buffer.to_string(), "");
    assert_eq!(e.message, "Undo");
    assert!(!e.history.can_undo());
    ctrl(&mut e, 'y');
    assert_eq!(e.buffer.to_string(), "abc");
    ctrl(&mut e, 'z');
    type_str(&mut e, "ab");
    ctrl(&mut e, 'z');
    assert_eq!(e.buffer.to_string(), "");
    assert_eq!(e.cursor.col, 0);
    ctrl(&mut e, 'y');
    assert_eq!(e.buffer.to_string(), "ab");
    assert_eq!(e.message, "Redo");
    assert_eq!(e.cursor.col, 2);
    ctrl(&mut e, 'y');
    assert_eq!(e.message, "Nothing to redo");
}

#[test]
fn undo_with_empty_history_says_so() {
    let mut e = editor_with("");
    ctrl(&mut e, 'z');
    assert_eq!(e.message, "Nothing to undo");
    assert_eq!(e.buffer.to_string(), "");
}

#[test]
fn enter_carries_the_indentation_over() {
    let mut e = editor_with("  x");
    e.cursor.col = 3;
    press(&mut e, KeyCode::Enter, MOD_NONE);
    assert_eq!(e.buffer.to_string(), "  x\n  ");
    assert_eq!((e.cursor.line, e.cursor.col), (1, 2));
    ctrl(&mut e, 'z');
    assert_eq!(e.buffer.to_string(), "  x");
    assert_eq!((e.cursor.line, e.cursor.col), (0, 3));
}

#[test]
fn backspace_at_line_start_joins_lines() {
    let mut e = editor_with("ab\ncd");
    e.cursor.line = 1;
    e.cursor.col = 0;
    press(&mut e, KeyCode::Backspace, MOD_NONE);
    assert_eq!(e.buffer.to_string(), "abcd");
    assert_eq!((e.cursor.line, e.cursor.col), (0, 2));
    ctrl(&mut e, 'z');
    assert_eq!(e.buffer.to_string(), "ab\ncd");
    assert_eq!((e.cursor.line, e.cursor.col), (1, 0));
}

#[test]
fn backspace_at_start_of_text_does_nothing() {
    let mut e = editor_with("ab");
    press(&mut e, KeyCode::Backspace, MOD_NONE);
    assert_eq!(e.buffer.to_string(), "ab");
    assert!(!e.history.can_undo());
}

#[test]
fn delete_removes_the_byte_at_the_cursor() {
    let mut e = editor_with("abc");
    e.cursor.col = 1;
    press(&mut e, KeyCode::Delete, MOD_NONE);
    assert_eq!(e.buffer.to_string(), "ac");
    assert_eq!(e.cursor.col, 1);
    e.cursor.col = 2;
    press(&mut e, KeyCode::Delete, MOD_NONE);
    assert_eq!(e.buffer.to_string(), "ac");
}

#[test]
fn control_keys_open_prompts_and_hand_out_effects() {
    let mut e = editor_with("");
    assert!(matches!(ctrl(&mut e, 's'), Effect::Nothing));
    assert!(matches!(e.mode, Mode::Command { kind: CommandKind::SaveAs { force_tex: true }, .. }));
    e.mode = Mode::Normal;
    ctrl(&mut e, 'o');
    assert!(matches!(e.mode, Mode::Command { kind: CommandKind::Open, .. }));
    e.mode = Mode::Normal;
    ctrl(&mut e, 'f');
    assert!(matches!(e.mode, Mode::Command { kind: CommandKind::Find, .. }));
    e.mode = Mode::Normal;
    ctrl(&mut e, 'g');
    assert!(matches!(e.mode, Mode::Command { kind: CommandKind::GotoLine, .. }));
    e.mode = Mode::Normal;
    assert!(matches!(ctrl(&mut e, 'b'), Effect::Build));
    assert!(matches!(ctrl(&mut e, 'p'), Effect::TogglePreview));
    assert!(matches!(ctrl(&mut e, 'v'), Effect::PasteFromSystem));
    ctrl(&mut e, 'e');
    assert_eq!(e.message, "No errors");
    ctrl(&mut e, 'h');
    assert!(matches!(e.mode, Mode::Help));
    press(&mut e, KeyCode::Esc, MOD_NONE);
    assert!(matches!(e.mode, Mode::Normal));
    ctrl(&mut e, 'q');
    assert!(!e.running);
}

#[test]
fn save_with_a_path_asks_the_caller_to_write() {
    let mut e = editor_with("");
    e.buffer.set_path(Some(String::from("doc.tex")));
    assert!(matches!(ctrl(&mut e, 's'), Effect::Save));
    assert!(e.save_finished("doc.tex", Ok(())));
    assert_eq!(e.message, "Saved");
    assert!(!e.buffer.modified());
    assert!(!e.save_finished("notes.txt", Ok(())));
    e.save_finished("doc.tex", Err(String::from("disk full")));
    assert_eq!(e.message, "Error saving: disk full");
}

#[test]
fn goto_line_prompt_moves_the_cursor() {
    let mut e = editor_with("a\nb\nc");
    ctrl(&mut e, 'g');
    type_str(&mut e, "2");
    press(&mut e, KeyCode::Enter, MOD_NONE);
    assert!(matches!(e.mode, Mode::Normal));
    assert_eq!((e.cursor.line, e.cursor.col), (1, 0));
    assert_eq!(e.message, "Goto line 2");
    e.goto_line("9");
    assert_eq!(e.message, "Line number out of range");
    e.goto_line("x");
    assert_eq!(e.message, "Invalid line number");
    e.goto_line("0");
    assert_eq!(e.message, "Invalid line number");
}

#[test]
fn prompt_input_is_edited_and_escape_cancels() {
    let mut e = editor_with("");
    ctrl(&mut e, 'f');
    type_str(&mut e, "ab");
    press(&mut e, KeyCode::Backspace, MOD_NONE);
    match &e.mode {
        Mode::Command { input, .. } => assert_eq!(input, "a"),
        _ => panic!("prompt closed"),
    }
    press(&mut e, KeyCode::Esc, MOD_NONE);
    assert!(matches!(e.mode, Mode::Normal));
    assert_eq!(e.message, "");
}

#[test]
fn find_moves_to_the_next_match_and_wraps() {
    let mut e = editor_with("ab cd ab");
    e.cursor.col = 1;
    e.execute_command(CommandKind::Find, "ab");
    assert_eq!(e.cursor.col, 6);
    assert_eq!(e.message, "Found \"ab\"");
    e.cursor.col = 7;
    e.execute_command(CommandKind::Find, "ab");
    assert_eq!(e.cursor.col, 0);
    assert_eq!(e.message, "Found \"ab\" (wrapped)");
    e.execute_command(CommandKind::Find, "zz");
    assert_eq!(e.message, "Not found");
    e.execute_command(CommandKind::Find, "");
    assert_eq!(e.message, "No search term");
}

#[test]
fn save_as_and_open_commands_check_the_extension() {
    let mut e = editor_with("");
    match e.execute_command(CommandKind::SaveAs { force_tex: true }, "doc") {
        Effect::SaveAs(p) => assert_eq!(p, "doc.tex"),
        _ => panic!("expected a save"),
    }
    assert!(matches!(
        e.execute_command(CommandKind::SaveAs { force_tex: true }, "x.txt"),
        Effect::Nothing
    ));
    assert_eq!(e.message, "Only .tex files can be saved");
    match e.execute_command(CommandKind::SaveAs { force_tex: false }, "x.txt") {
        Effect::SaveAs(p) => assert_eq!(p, "x.txt"),
        _ => panic!("expected a save"),
    }
    e.execute_command(CommandKind::SaveAs { force_tex: true }, "");
    assert_eq!(e.message, "No filename given");
    e.execute_command(CommandKind::Open, "a.txt");
    assert_eq!(e.message, "Only .tex files can be opened");
    match e.execute_command(CommandKind::Open, "a.tex") {
        Effect::Open(p) => assert_eq!(p, "a.tex"),
        _ => panic!("expected an open"),
    }
}

#[test]
fn overwrite_question_is_answered_by_keys() {
    let mut e = editor_with("");
    e.confirm_overwrite(String::from("f.tex"));
    match &e.mode {
        Mode::Confirm { message, .. } => assert_eq!(message, "Overwrite f.tex? (y/N)"),
        _ => panic!("no question"),
    }
    press(&mut e, KeyCode::Char('n'), MOD_NONE);
    assert!(matches!(e.mode, Mode::Normal));
    assert_eq!(e.message, "Cancelled");
    e.confirm_overwrite(String::from("f.tex"));
    assert!(matches!(press(&mut e, KeyCode::Char('y'), MOD_NONE), Effect::Save));
    assert!(matches!(e.mode, Mode::Normal));
}

fn failed_build(lines: &[usize]) -> CompileResult {
    CompileResult {
        success: false,
        pdf_data: None,
        errors: lines
            .iter()
            .map(|&l| CompileError { line: l, message: String::from("Undefined control sequence.\nl.3 \\x") })
            .collect(),
    }
}

#[test]
fn failed_build_reports_and_lists_errors() {
    let mut e = editor_with("a\nb\nc\nd");
    let open = e.build_finished(failed_build(&[2, 0]));
    assert!(!open);
    assert_eq!(e.message, "Build failed (2 errors) — line 3: Undefined control sequence.");
    assert_eq!((e.cursor.line, e.cursor.col), (2, 0));
    assert_eq!(e.diagnostics.len(), 2);
    assert_eq!(e.diagnostics[0], "line 3: Undefined control sequence.\nl.3 \\x");
    assert_eq!(e.diagnostics[1], "line 1: Undefined control sequence.\nl.3 \\x");

    // The error list wraps around
    ctrl(&mut e, 'e');
    assert!(matches!(e.mode, Mode::ErrorView { selected: 0, .. }));
    press(&mut e, KeyCode::Up, MOD_NONE);
    assert!(matches!(e.mode, Mode::ErrorView { selected: 1, .. }));
    press(&mut e, KeyCode::Down, MOD_NONE);
    assert!(matches!(e.mode, Mode::ErrorView { selected: 0, .. }));
    press(&mut e, KeyCode::Esc, MOD_NONE);
    assert!(matches!(e.mode, Mode::Normal));

    let mut one = editor_with("");
    one.build_finished(failed_build(&[0]));
    assert_eq!(one.message, "Build failed (1 error) — line 1: Undefined control sequence.");
}

#[test]
fn successful_build_reports_the_pdf_size() {
    let mut e = editor_with("");
    e.build_started();
    assert_eq!(e.message, "Building…");
    assert!(!e.build_dirty);
    assert!(!e.toggle_preview(false));
    assert!(e.open_zathura_on_complete);
    let open = e.build_finished(CompileResult { success: true, pdf_data: Some(vec![1, 2, 3]), errors: Vec::new() });
    assert!(open);
    assert!(!e.open_zathura_on_complete);
    assert_eq!(e.message, "Build OK (3 bytes)");
    assert!(e.last_compile.is_some());
    e.note_edits_since_build();
    assert_eq!(e.message, "Build OK (3 bytes)");
    e.build_dirty = true;
    e.note_edits_since_build();
    assert_eq!(e.message, "Build OK — edits made since build");
}

#[test]
fn a_finished_build_notes_edits_made_since_after_the_preview() {
    let ok = || CompileResult { success: true, pdf_data: Some(vec![1]), errors: Vec::new() };
    // no preview asked for: the edits are noted at once
    let mut e = editor_with("");
    e.build_dirty = true;
    assert!(!e.build_completed(ok()));
    assert_eq!(e.message, "Build OK — edits made since build");
    // preview asked for: its outcome first, then the edits
    let mut f = editor_with("");
    f.open_zathura_on_complete = true;
    assert!(f.build_completed(ok()));
    assert_eq!(f.message, "Build OK (1 bytes)");
    f.build_dirty = true;
    f.preview_opened(PreviewLaunch::Opened(String::from("/tmp/a.pdf")));
    assert_eq!(f.message, "Build OK — edits made since build");
    let mut g = editor_with("");
    g.preview_opened(PreviewLaunch::Opened(String::from("/tmp/a.pdf")));
    assert_eq!(g.message, "Preview opened: /tmp/a.pdf");
    // a failed build notes nothing more
    let mut h = editor_with("");
    h.build_dirty = true;
    assert!(!h.build_completed(failed_build(&[3])));
    assert_ne!(h.message, "Build OK — edits made since build");
}

#[test]
fn build_keys_announce_the_build() {
    let mut e = editor_with("");
    assert!(e.announce_build(&InputEvent::Key(key(KeyCode::Char('b'), MOD_CONTROL))));
    assert_eq!(e.message, "Building…");
    assert!(e.message_fresh);
    let mut f = editor_with("");
    assert!(f.announce_build(&InputEvent::Key(key(KeyCode::Char('p'), MOD_CONTROL))));
    assert!(!f.announce_build(&InputEvent::Key(key(KeyCode::Char('b'), MOD_NONE))));
    let mut g = editor_with("");
    assert!(!g.announce_build(&InputEvent::Key(key(KeyCode::Char('s'), MOD_CONTROL))));
    assert!(!g.announce_build(&InputEvent::ScrollUp));
    assert_eq!(g.message, "");
}

#[test]
fn preview_toggle_and_launch_messages() {
    let mut e = editor_with("");
    assert!(e.toggle_preview(true));
    assert_eq!(e.message, "Preview closed");
    e.preview_launched(PreviewLaunch::NoPdf);
    assert_eq!(e.message, "Build first — no PDF yet");
    e.preview_launched(PreviewLaunch::Opened(String::from("/tmp/a.pdf")));
    assert_eq!(e.message, "Preview opened: /tmp/a.pdf");
    e.preview_launched(PreviewLaunch::Failed(String::from("boom")));
    assert_eq!(e.message, "Failed to open zathura: boom");
}

#[test]
fn pdf_goes_next_to_the_source() {
    let mut e = editor_with("");
    assert_eq!(e.pdf_output_path(), "/tmp/muT_preview.pdf");
    e.buffer.set_path(Some(String::from("/home/u/doc.tex")));
    assert_eq!(e.pdf_output_path(), "/home/u/doc.pdf");
}

#[test]
fn automatic_save_is_due_after_the_interval() {
    let mut e = editor_with("");
    assert!(!e.auto_save_due(10, 60));
    e.buffer.set_modified(true);
    assert!(e.auto_save_due(10, 10));
    assert!(!e.auto_save_due(10, 9));
    assert!(!e.auto_save_due(0, 60));
}

#[test]
fn paste_inserts_the_system_text_or_the_clipboard() {
    let mut e = editor_with("ab");
    e.cursor.col = 1;
    let sys = Some(String::from("x\ny"));
    assert!(e.paste_applicable(&sys));
    e.paste(sys);
    assert_eq!(e.buffer.to_string(), "ax\nyb");
    assert_eq!((e.cursor.line, e.cursor.col), (1, 1));
    assert_eq!(e.clipboard, "x\ny");
    assert_eq!(e.message, "Pasted");
    // One undo removes the whole paste and puts the cursor back
    ctrl(&mut e, 'z');
    assert_eq!(e.buffer.to_string(), "ab");
    assert_eq!((e.cursor.line, e.cursor.col), (0, 1));
    // and redo brings it back
    ctrl(&mut e, 'y');
    assert_eq!(e.buffer.to_string(), "ax\nyb");

    let mut empty = editor_with("");
    empty.paste(None);
    assert_eq!(empty.message, "Nothing to paste");
    assert_eq!(empty.buffer.to_string(), "");
}

#[test]
fn copy_and_cut_use_the_line_without_a_selection() {
    let mut e = editor_with("abc\ndef");
    assert!(matches!(ctrl(&mut e, 'c'), Effect::CopyToSystem));
    assert_eq!(e.clipboard, "abc");
    assert_eq!(e.message, "Copied line");
    assert!(matches!(ctrl(&mut e, 'x'), Effect::CopyToSystem));
    assert_eq!(e.clipboard, "abc\n");
    assert_eq!(e.buffer.to_string(), "def");
    assert_eq!(e.message, "Cut line");
    ctrl(&mut e, 'z');
    assert_eq!(e.buffer.to_string(), "abc\ndef");
}

#[test]
fn a_one_character_paste_after_typing_undoes_alone() {
    let mut e = editor_with("");
    type_str(&mut e, "a");
    assert!(e.paste_applicable(&Some(String::from("b"))));
    e.paste_received(String::from("b"));
    assert_eq!(e.buffer.to_string(), "ab");
    ctrl(&mut e, 'z');
    assert_eq!(e.buffer.to_string(), "a");
    assert_eq!(e.cursor.col, 1);
    ctrl(&mut e, 'z');
    assert_eq!(e.buffer.to_string(), "");
}

#[test]
fn a_paste_leaves_the_cursor_right_after_the_text() {
    let mut e = editor_with("ab\ncd");
    e.cursor.col = 1;
    e.paste_received(String::from("x\nyz"));
    assert_eq!(e.buffer.to_string(), "ax\nyzb\ncd");
    assert_eq!((e.cursor.line, e.cursor.col), (1, 2));
    assert_eq!(e.cursor.byte_idx(&e.buffer), 1 + 4);
}

#[test]
fn undo_after_a_cut_restores_text_and_cursor() {
    let mut e = editor_with("hello world");
    e.cursor.col = 6;
    press(&mut e, KeyCode::Right, MOD_SHIFT);
    press(&mut e, KeyCode::Right, MOD_SHIFT);
    let before = e.cursor;
    ctrl(&mut e, 'x');
    assert_eq!(e.buffer.to_string(), "hello rld");
    ctrl(&mut e, 'z');
    assert_eq!(e.buffer.to_string(), "hello world");
    assert_eq!(e.cursor, before);
}

#[test]
fn the_automatic_build_starts_800_ms_after_the_last_edit() {
    let mut e = editor_with("");
    assert!(!e.poll_auto_build(10_000));
    type_str(&mut e, "a");
    assert!(e.debounce_requested && e.edit_fresh);
    assert!(!e.poll_auto_build(799));
    assert!(e.debounce_requested);
    assert!(e.poll_auto_build(800));
    assert!(!e.debounce_requested);
    assert!(!e.poll_auto_build(5_000));
}

#[test]
fn selection_is_extended_by_shift_and_cut() {
    let mut e = editor_with("hello world");
    press(&mut e, KeyCode::Right, MOD_SHIFT);
    press(&mut e, KeyCode::Right, MOD_SHIFT);
    assert!(e.cursor.has_selection());
    assert_eq!(e.cursor.selection_range(&e.buffer), Some((0, 2)));
    ctrl(&mut e, 'c');
    assert_eq!(e.clipboard, "he");
    assert_eq!(e.message, "Copied selection");
    ctrl(&mut e, 'x');
    assert_eq!(e.buffer.to_string(), "llo world");
    assert_eq!(e.message, "Cut selection");
    assert_eq!((e.cursor.line, e.cursor.col), (0, 0));
    // a plain arrow drops the selection
    press(&mut e, KeyCode::Right, MOD_SHIFT);
    press(&mut e, KeyCode::Right, MOD_NONE);
    assert!(!e.cursor.has_selection());
}

#[test]
fn select_all_then_typing_replaces_nothing_but_drops_the_selection() {
    let mut e = editor_with("ab\ncd");
    ctrl(&mut e, 'a');
    assert_eq!(e.message, "Selected all");
    assert_eq!((e.cursor.line, e.cursor.col), (1, 2));
    assert_eq!(e.cursor.anchor, Some((0, 0)));
    type_str(&mut e, "x");
    assert_eq!(e.buffer.to_string(), "ab\ncdx");
    assert!(!e.cursor.has_selection());
}

#[test]
fn new_file_starts_from_the_template() {
    let mut e = editor_with("old");
    ctrl(&mut e, 'n');
    assert_eq!(e.buffer.to_string(), LATEX_TEMPLATE);
    assert_eq!(e.message, "New LaTeX document");
    assert!(e.buffer.path().is_none());
    assert_eq!(e.buffer.line(0), "\\documentclass{article}");
}

#[test]
fn view_scrolls_to_keep_the_cursor_visible() {
    let mut e = editor_with("0\n1\n2\n3\n4\n5\n6\n7\n8\n9");
    e.terminal_height = 4; // three text lines and the status bar
    for _ in 0..5 {
        press(&mut e, KeyCode::Down, MOD_NONE);
    }
    assert_eq!(e.cursor.line, 5);
    assert_eq!(e.scroll.line, 3);
    press(&mut e, KeyCode::Up, MOD_CONTROL);
    assert_eq!(e.scroll.line, 2);
    assert_eq!(e.cursor.line, 5);
    press(&mut e, KeyCode::Down, MOD_CONTROL);
    assert_eq!(e.scroll.line, 3);
}

#[test]
fn terminal_events_scroll_resize_click_and_paste() {
    let mut e = editor_with("0\n1\n2\n3\n4\n5\n6\n7\n8\n9");
    e.terminal_height = 4;
    e.handle_event(InputEvent::ScrollDown);
    assert_eq!(e.scroll.line, 3);
    e.handle_event(InputEvent::ScrollUp);
    assert_eq!(e.scroll.line, 0);
    e.handle_event(InputEvent::Resize(100, 30));
    assert_eq!((e.terminal_width, e.terminal_height), (100, 30));
    // gutter is 3 columns wide for ten lines
    e.handle_event(InputEvent::Click(4, 2));
    assert_eq!((e.cursor.line, e.cursor.col), (2, 1));
    let ev = InputEvent::Paste(String::from("zz"));
    assert!(e.event_applicable(&ev));
    e.handle_event(ev);
    assert_eq!(e.buffer.line(2), "2zz");
    assert!(e.build_dirty);
}

#[test]
fn keys_inside_a_character_are_refused() {
    let mut e = editor_with("é");
    e.cursor.col = 1;
    assert!(!e.key_applicable(key(KeyCode::Char('x'), MOD_NONE)));
    assert!(!e.key_applicable(key(KeyCode::Enter, MOD_NONE)));
    assert!(e.key_applicable(key(KeyCode::Left, MOD_NONE)));
    assert!(!e.can_paste("x"));
    e.cursor.col = 2;
    assert!(!e.key_applicable(key(KeyCode::Backspace, MOD_NONE)));
    assert!(e.can_paste("x"));
}

#[test]
fn open_and_save_as_results_update_the_buffer() {
    let mut e = editor_with("");
    let mut b = Buffer::load_from_str("x");
    b.set_path(Some(String::from("a.tex")));
    e.open_finished("a.tex", Ok(b));
    assert_eq!(e.buffer.to_string(), "x");
    assert_eq!(e.buffer.path_or_untitled(), "a.tex");
    assert!(e.save_as_finished(String::from("b.tex"), Ok(())));
    assert_eq!(e.buffer.path_or_untitled(), "b.tex");
    assert_eq!(e.message, "Saved");
    let c = Cursor::new();
    assert_eq!(e.cursor, c);
}
