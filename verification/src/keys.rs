//! The key bindings of normal mode, and the dispatch of a key press to the
//! handler of the current mode.
use vstd::prelude::*;
use crate::buffer::Buffer;
use crate::cursor::{
    move_down_post, move_end_post, move_home_post, move_left_post, move_page_down_post,
    move_page_up_post, move_right_post, move_up_post, selection_fits, spec_selection_range,
    Cursor,
};
use crate::app::{
    backspace_post, cleared, command_key_post, confirm_key_post, copy_line_post,
    cut_selection_or_line_post, delete_post, error_view_key_post, help_key_post,
    insert_char_post, insert_newline_post, insert_str_with_history_post, mark_modified,
    new_file_post, redo_post, same_but_mode, save_post, scroll_view_down_post,
    scroll_view_up_post, select_all_post, settle, show_errors_post, undo_post, with_cursor,
    mouse_click_post, paste_received_post, resize_post, wheel_down_post, wheel_up_post,
    CommandKind, App, Effect, Key, KeyCode, Mode, MOD_CONTROL, MOD_NONE, MOD_SHIFT,
};
use crate::app::count_lf;
use crate::screen::{repeat_char, spaces};
use crate::text_model::char_boundary;

verus! {

/// The keys that move the cursor.
pub open spec fn is_motion(code: KeyCode) -> bool {
    code is Up || code is Down || code is Left || code is Right || code is Home || code is End
        || code is PageUp || code is PageDown
}

/// `c2` is where the movement key `code` takes the cursor `c` in buffer
/// `b`, on a screen `height` lines tall.
pub open spec fn motion_post(
    c: Cursor,
    c2: Cursor,
    b: &Buffer,
    code: KeyCode,
    select: bool,
    height: usize,
) -> bool {
    match code {
        KeyCode::Up => move_up_post(&c, &c2, b, select),
        KeyCode::Down => move_down_post(&c, &c2, b, select),
        KeyCode::Left => move_left_post(&c, &c2, b, select),
        KeyCode::Right => move_right_post(&c, &c2, b, select),
        KeyCode::Home => move_home_post(&c, &c2, b, select),
        KeyCode::End => move_end_post(&c, &c2, b, select),
        KeyCode::PageUp => move_page_up_post(&c, &c2, b, height, select),
        KeyCode::PageDown => move_page_down_post(&c, &c2, b, height, select),
        _ => false,
    }
}

/// Ctrl+C can copy: the selection's ends are positions of the text.
pub open spec fn copy_ok(e: &App) -> bool {
    &&& selection_fits(e.cursor, e.buffer@)
    &&& spec_selection_range(e.cursor, e.buffer@) matches Some(p) ==> char_boundary(e.buffer@, p.0)
        && char_boundary(e.buffer@, p.1)
}

/// Ctrl+X can cut: a non-empty selection's ends are positions of the text.
pub open spec fn cut_ok(e: &App) -> bool {
    let c = e.cursor;
    &&& selection_fits(c, e.buffer@)
    &&& c.selecting && c.anchor is Some && c.anchor != Some((c.line, c.col)) ==> ({
        let r = spec_selection_range(c, e.buffer@)->0;
        char_boundary(e.buffer@, r.0) && char_boundary(e.buffer@, r.1)
    })
}

/// The editor's state admits the normal-mode command bound to `key`:
/// the text positions it edits at lie on character boundaries, and the
/// line it moves to has a number.
pub open spec fn normal_key_ok(e: &App, key: Key) -> bool {
    let ctrl = key.modifiers == MOD_CONTROL;
    let typed = key.modifiers == MOD_NONE || key.modifiers == MOD_SHIFT;
    let p = e.cursor_pos();
    match key.code {
        KeyCode::Char(ch) => if ctrl {
            if ch == 'z' {
                e.undo_ok()
            } else if ch == 'y' {
                e.redo_ok()
            } else if ch == 'c' {
                copy_ok(e)
            } else if ch == 'x' {
                cut_ok(e)
            } else {
                true
            }
        } else if typed {
            e.cursor_ok()
        } else {
            true
        },
        KeyCode::Down => ctrl || e.cursor.line < usize::MAX,
        KeyCode::Right | KeyCode::End => e.cursor.line < usize::MAX,
        KeyCode::Backspace => e.cursor_ok() && (p > 0 ==> char_boundary(e.buffer@, p - 1)),
        KeyCode::Delete => e.cursor_ok() && (p < e.buffer@.len() ==> char_boundary(
            e.buffer@,
            p + 1,
        )),
        KeyCode::Enter => e.cursor_ok() && e.cursor.line < usize::MAX,
        KeyCode::Tab => e.cursor_ok(),
        _ => true,
    }
}

/// The prompt of kind `kind` opened, empty, and nothing else changed.
pub open spec fn prompt_opened(pre: &App, post: &App, kind: CommandKind) -> bool {
    &&& post.mode matches Mode::Command { input, kind: k } && input@.len() == 0 && k == kind
    &&& same_but_mode(pre, post)
}

/// The effect of Ctrl plus the letter `ch` in normal mode.
pub open spec fn ctrl_key_post(pre: &App, post: &App, ch: char, e: Effect) -> bool {
    if ch == 'q' {
        e is Nothing && *post == App { running: false, ..*pre }
    } else if ch == 's' {
        save_post(pre, post, e)
    } else if ch == 'o' {
        e is Nothing && prompt_opened(pre, post, CommandKind::Open)
    } else if ch == 'f' {
        e is Nothing && prompt_opened(pre, post, CommandKind::Find)
    } else if ch == 'g' {
        e is Nothing && prompt_opened(pre, post, CommandKind::GotoLine)
    } else if ch == 'n' {
        e is Nothing && new_file_post(pre, post)
    } else if ch == 'z' {
        e is Nothing && undo_post(pre, post)
    } else if ch == 'y' {
        e is Nothing && redo_post(pre, post)
    } else if ch == 'b' {
        e is Build && *post == *pre
    } else if ch == 'p' {
        e is TogglePreview && *post == *pre
    } else if ch == 'c' {
        (e is CopyToSystem || e is Nothing) && copy_line_post(pre, post, e is CopyToSystem)
    } else if ch == 'a' {
        e is Nothing && select_all_post(pre, post)
    } else if ch == 'x' {
        e is CopyToSystem && cut_selection_or_line_post(pre, post)
    } else if ch == 'v' {
        e is PasteFromSystem && *post == *pre
    } else if ch == 'h' {
        e is Nothing && post.mode is Help && same_but_mode(pre, post)
    } else if ch == 'e' {
        e is Nothing && show_errors_post(pre, post)
    } else {
        e is Nothing && *post == *pre
    }
}

/// The effect of an editing key (Backspace, Delete, Enter, Tab, or a typed
/// character) in normal mode: the selection is dropped, the edit made, the
/// view scrolled to the cursor (but for Delete) and the edit noted for the
/// automatic build.
pub open spec fn edit_key_post(pre: &App, post: &App, code: KeyCode) -> bool {
    let start = cleared(*pre);
    match code {
        KeyCode::Backspace => exists|b: App|
            backspace_post(&start, &b) && *post == mark_modified(settle(b)),
        KeyCode::Delete => exists|b: App| delete_post(&start, &b) && *post == mark_modified(b),
        KeyCode::Enter => exists|b: App|
            insert_newline_post(&start, &b) && *post == mark_modified(settle(b)),
        KeyCode::Tab => match pre.ghost_text {
            Some(g) => exists|b: App|
                insert_str_with_history_post(&App { ghost_text: None, ..start }, &b, g@)
                    && *post == mark_modified(settle(b)),
            None => exists|b: App|
                insert_str_with_history_post(&start, &b, spaces(pre.tab_width as nat))
                    && *post == mark_modified(settle(b)),
        },
        KeyCode::Char(ch) => exists|b: App|
            insert_char_post(&start, &b, ch) && *post == mark_modified(settle(b)),
        _ => false,
    }
}

/// The effect of the movement key `key` in normal mode: Shift extends the
/// selection, any other modifier drops it, and the view follows the cursor.
pub open spec fn motion_key_post(pre: &App, post: &App, key: Key) -> bool {
    exists|c2: Cursor|
        motion_post(
            pre.cursor,
            c2,
            &pre.buffer,
            key.code,
            key.modifiers == MOD_SHIFT,
            pre.spec_editor_height() as usize,
        ) && *post == settle(with_cursor(*pre, c2))
}

/// The effect of `key` in normal mode.
pub open spec fn normal_key_post(pre: &App, post: &App, key: Key, e: Effect) -> bool {
    let ctrl = key.modifiers == MOD_CONTROL;
    let typed = key.modifiers == MOD_NONE || key.modifiers == MOD_SHIFT;
    &&& e is Nothing || (key.code is Char && ctrl)
    &&& match key.code {
        KeyCode::Char(ch) => if ctrl {
            ctrl_key_post(pre, post, ch, e)
        } else if typed {
            edit_key_post(pre, post, key.code)
        } else {
            *post == *pre
        },
        KeyCode::Up => if ctrl {
            scroll_view_up_post(pre, post)
        } else {
            motion_key_post(pre, post, key)
        },
        KeyCode::Down => if ctrl {
            scroll_view_down_post(pre, post)
        } else {
            motion_key_post(pre, post, key)
        },
        KeyCode::Backspace | KeyCode::Delete | KeyCode::Enter | KeyCode::Tab => edit_key_post(
            pre,
            post,
            key.code,
        ),
        _ => if is_motion(key.code) {
            motion_key_post(pre, post, key)
        } else {
            *post == *pre
        },
    }
}

impl App {
    /// A key press in normal mode: run the command bound to it.
    #[verifier::spinoff_prover]
    pub fn handle_normal_key(&mut self, key: Key) -> (e: Effect)
        requires
            old(self).wf(),
            normal_key_ok(old(self), key),
        ensures
            final(self).wf(),
            normal_key_post(old(self), final(self), key, e),
    {
        let ctrl = key.modifiers == MOD_CONTROL;
        let typed = key.modifiers == MOD_NONE || key.modifiers == MOD_SHIFT;
        match key.code {
            KeyCode::Char(ch) => {
                if ctrl {
                    self.handle_ctrl_key(ch)
                } else if typed {
                    self.handle_edit_key(key.code);
                    Effect::Nothing
                } else {
                    Effect::Nothing
                }
            },
            // Scroll view without moving cursor (must precede bare Up/Down)
            KeyCode::Up if ctrl => {
                self.scroll_view_up();
                Effect::Nothing
            },
            KeyCode::Down if ctrl => {
                self.scroll_view_down();
                Effect::Nothing
            },
            KeyCode::Backspace | KeyCode::Delete | KeyCode::Enter | KeyCode::Tab => {
                self.handle_edit_key(key.code);
                Effect::Nothing
            },
            KeyCode::Up | KeyCode::Down | KeyCode::Left | KeyCode::Right | KeyCode::Home
            | KeyCode::End | KeyCode::PageUp | KeyCode::PageDown => {
                // Shift extends the selection; any other modifier drops it
                self.handle_motion(key.code, key.modifiers == MOD_SHIFT);
                Effect::Nothing
            },
            _ => Effect::Nothing,
        }
    }

    /// Move the cursor by the movement key `code` and scroll it into view.
    fn handle_motion(&mut self, code: KeyCode, select: bool)
        requires
            old(self).wf(),
            is_motion(code),
            (code is Down || code is Right || code is End) ==> old(self).cursor.line < usize::MAX,
        ensures
            final(self).wf(),
            exists|c2: Cursor|
                motion_post(
                    old(self).cursor,
                    c2,
                    &old(self).buffer,
                    code,
                    select,
                    old(self).spec_editor_height() as usize,
                ) && *final(self) == settle(with_cursor(*old(self), c2)),
    {
        let ghost pre = *self;
        let height = self.editor_height();
        match code {
            KeyCode::Up => self.cursor.move_up(&self.buffer, select),
            KeyCode::Down => self.cursor.move_down(&self.buffer, select),
            KeyCode::Left => self.cursor.move_left(&self.buffer, select),
            KeyCode::Right => self.cursor.move_right(&self.buffer, select),
            KeyCode::Home => self.cursor.move_home(&self.buffer, select),
            KeyCode::End => self.cursor.move_end(&self.buffer, select),
            KeyCode::PageUp => self.cursor.move_page_up(&self.buffer, height, select),
            _ => self.cursor.move_page_down(&self.buffer, height, select),
        }
        let ghost c2 = self.cursor;
        assert(*self == with_cursor(pre, c2));
        assert(motion_post(pre.cursor, c2, &pre.buffer, code, select, height));
        self.ensure_cursor_visible();
    }

    /// Ctrl plus the letter `ch` in normal mode.
    fn handle_ctrl_key(&mut self, ch: char) -> (e: Effect)
        requires
            old(self).wf(),
            ch == 'z' ==> old(self).undo_ok(),
            ch == 'y' ==> old(self).redo_ok(),
            ch == 'c' ==> copy_ok(old(self)),
            ch == 'x' ==> cut_ok(old(self)),
        ensures
            final(self).wf(),
            ctrl_key_post(old(self), final(self), ch, e),
    {
        match ch {
            // Quit
            'q' => {
                self.running = false;
                Effect::Nothing
            },
            // Save
            's' => self.save(),
            // Open, find, go to line: open the prompt
            'o' => {
                self.mode = Mode::Command { input: String::new(), kind: CommandKind::Open };
                Effect::Nothing
            },
            'f' => {
                self.mode = Mode::Command { input: String::new(), kind: CommandKind::Find };
                Effect::Nothing
            },
            'g' => {
                self.mode = Mode::Command { input: String::new(), kind: CommandKind::GotoLine };
                Effect::Nothing
            },
            // New file
            'n' => {
                self.new_file();
                Effect::Nothing
            },
            // Undo / Redo
            'z' => {
                self.undo();
                Effect::Nothing
            },
            'y' => {
                self.redo();
                Effect::Nothing
            },
            // Build; toggle the preview
            'b' => Effect::Build,
            'p' => Effect::TogglePreview,
            // Clipboard
            'c' => {
                if self.copy_line() {
                    Effect::CopyToSystem
                } else {
                    Effect::Nothing
                }
            },
            'a' => {
                self.select_all();
                Effect::Nothing
            },
            'x' => {
                self.cut_selection_or_line();
                Effect::CopyToSystem
            },
            'v' => Effect::PasteFromSystem,
            // Help overlay
            'h' => {
                self.mode = Mode::Help;
                Effect::Nothing
            },
            // View build errors
            'e' => {
                self.show_errors();
                Effect::Nothing
            },
            _ => Effect::Nothing,
        }
    }

    /// Backspace, Delete, Enter, Tab or a typed character in normal mode.
    #[verifier::rlimit(30)]
    fn handle_edit_key(&mut self, code: KeyCode)
        requires
            old(self).wf(),
            code is Backspace || code is Delete || code is Enter || code is Tab || code is Char,
            old(self).cursor_ok(),
            code is Backspace && old(self).cursor_pos() > 0 ==> char_boundary(
                old(self).buffer@,
                old(self).cursor_pos() - 1,
            ),
            code is Delete && old(self).cursor_pos() < old(self).buffer@.len() ==> char_boundary(
                old(self).buffer@,
                old(self).cursor_pos() + 1,
            ),
            code is Enter ==> old(self).cursor.line < usize::MAX,
        ensures
            final(self).wf(),
            edit_key_post(old(self), final(self), code),
    {
        let ghost pre = *self;
        let ghost start = cleared(pre);
        match code {
            KeyCode::Tab => {
                // Accept the ghost text, or indent by `tab_width` spaces
                let mut ghost_text: Option<String> = None;
                std::mem::swap(&mut ghost_text, &mut self.ghost_text);
                self.cursor.clear_selection();
                match ghost_text {
                    Some(g) => {
                        assert(*self == App { ghost_text: None, ..start });
                        self.insert_str_with_history(g.as_str());
                        let ghost b = *self;
                        self.ensure_cursor_visible();
                        self.modified_since_build();
                        assert(insert_str_with_history_post(
                            &App { ghost_text: None, ..start },
                            &b,
                            g@,
                        ));
                    },
                    None => {
                        assert(*self == start);
                        let indent = repeat_char(' ', self.tab_width);
                        self.insert_str_with_history(indent.as_str());
                        let ghost b = *self;
                        self.ensure_cursor_visible();
                        self.modified_since_build();
                        assert(insert_str_with_history_post(&start, &b, spaces(pre.tab_width as nat)));
                    },
                }
            },
            KeyCode::Backspace => {
                self.cursor.clear_selection();
                assert(*self == start);
                self.backspace();
                let ghost b = *self;
                self.ensure_cursor_visible();
                self.modified_since_build();
                assert(backspace_post(&start, &b));
            },
            KeyCode::Delete => {
                self.cursor.clear_selection();
                assert(*self == start);
                self.delete();
                let ghost b = *self;
                self.modified_since_build();
                assert(delete_post(&start, &b));
            },
            KeyCode::Enter => {
                self.cursor.clear_selection();
                assert(*self == start);
                self.insert_newline();
                let ghost b = *self;
                self.ensure_cursor_visible();
                self.modified_since_build();
                assert(insert_newline_post(&start, &b));
            },
            KeyCode::Char(c) => {
                self.cursor.clear_selection();
                assert(*self == start);
                self.insert_char(c);
                let ghost b = *self;
                self.ensure_cursor_visible();
                self.modified_since_build();
                assert(insert_char_post(&start, &b, c));
            },
            _ => {},
        }
    }
}

/// A terminal event, as the editor sees it.
pub enum InputEvent {
    Key(Key),
    /// Text delivered by a bracketed paste.
    Paste(String),
    /// The terminal's new width and height.
    Resize(u16, u16),
    ScrollDown,
    ScrollUp,
    /// A left click at a terminal cell (column, row).
    Click(u16, u16),
    Other,
}

/// The editor's state admits `key` in its current mode.
pub open spec fn key_ok(e: &App, key: Key) -> bool {
    match e.mode {
        Mode::Normal => normal_key_ok(e, key),
        Mode::Command { kind, .. } => kind is Find && key.code == KeyCode::Enter ==> e.cursor_pos()
            <= usize::MAX && e.cursor_ok(),
        _ => true,
    }
}

/// The effect of `key` in the editor's current mode.
pub open spec fn key_post(pre: &App, post: &App, key: Key, e: Effect) -> bool {
    match pre.mode {
        Mode::Normal => normal_key_post(pre, post, key, e),
        Mode::Command { .. } => command_key_post(pre, post, key, e),
        Mode::Confirm { .. } => confirm_key_post(pre, post, key, e),
        Mode::ErrorView { .. } => e is Nothing && error_view_key_post(pre, post, key),
        Mode::Help => e is Nothing && help_key_post(pre, post, key),
    }
}

/// The editor's state admits the event: a key is admitted in the current
/// mode, and pasted text goes where the cursor can take it.
pub open spec fn event_ok(e: &App, event: InputEvent) -> bool {
    match event {
        InputEvent::Key(k) => key_ok(e, k),
        InputEvent::Paste(text) => e.mode is Normal ==> e.cursor_ok() && e.paste_fits(text@),
        _ => true,
    }
}

/// The effect of a terminal event on the editor.
pub open spec fn event_post(pre: &App, post: &App, event: InputEvent, e: Effect) -> bool {
    match event {
        InputEvent::Key(k) => key_post(pre, post, k, e),
        InputEvent::Paste(text) => e is Nothing && if pre.mode is Normal {
            exists|b: App| paste_received_post(pre, &b, text) && *post == mark_modified(b)
        } else {
            *post == *pre
        },
        InputEvent::Resize(w, h) => e is Nothing && resize_post(pre, post, w, h),
        InputEvent::ScrollDown => e is Nothing && wheel_down_post(pre, post),
        InputEvent::ScrollUp => e is Nothing && wheel_up_post(pre, post),
        InputEvent::Click(col, row) => e is Nothing && mouse_click_post(pre, post, col, row),
        InputEvent::Other => e is Nothing && *post == *pre,
    }
}

impl App {
    /// A key press: hand it to the handler of the current mode.
    pub fn handle_key(&mut self, key: Key) -> (e: Effect)
        requires
            old(self).wf(),
            key_ok(old(self), key),
        ensures
            final(self).wf(),
            key_post(old(self), final(self), key, e),
    {
        match self.mode {
            Mode::Normal => self.handle_normal_key(key),
            Mode::Command { .. } => self.handle_command_key(key),
            Mode::Confirm { .. } => self.handle_confirm_key(key),
            Mode::ErrorView { .. } => {
                self.handle_error_view_key(key);
                Effect::Nothing
            },
            Mode::Help => {
                self.handle_help_key(key);
                Effect::Nothing
            },
        }
    }

    /// A terminal event: keys go to the current mode, pasted text is
    /// inserted in normal mode, the mouse wheel scrolls and a click moves
    /// the cursor.
    pub fn handle_event(&mut self, event: InputEvent) -> (e: Effect)
        requires
            old(self).wf(),
            event_ok(old(self), event),
        ensures
            final(self).wf(),
            event_post(old(self), final(self), event, e),
    {
        match event {
            InputEvent::Key(key) => self.handle_key(key),
            InputEvent::Paste(text) => {
                if let Mode::Normal = self.mode {
                    self.paste_received(text);
                    let ghost b = *self;
                    self.modified_since_build();
                    assert(paste_received_post(old(self), &b, text));
                }
                Effect::Nothing
            },
            InputEvent::Resize(w, h) => {
                self.resize(w, h);
                Effect::Nothing
            },
            InputEvent::ScrollDown => {
                self.wheel_down();
                Effect::Nothing
            },
            InputEvent::ScrollUp => {
                self.wheel_up();
                Effect::Nothing
            },
            InputEvent::Click(col, row) => {
                self.mouse_click(col, row);
                Effect::Nothing
            },
            InputEvent::Other => Effect::Nothing,
        }
    }
}

proof fn lemma_count_lf_mono(b: Seq<u8>, i: int, j: int)
    requires
        0 <= i <= j <= b.len(),
    ensures
        count_lf(b.take(i)) <= count_lf(b.take(j)),
    decreases j - i,
{
    if i < j {
        assert(b.take(j).drop_last() =~= b.take(j - 1));
        lemma_count_lf_mono(b, i, j - 1);
    }
}

impl App {
    /// Whether both ends of an active selection fit in a `usize`.
    fn selection_fits_check(&self) -> (b: bool)
        ensures
            b == selection_fits(self.cursor, self.buffer@),
    {
        match self.cursor.anchor {
            Some(a) => {
                if !self.cursor.selecting {
                    return true;
                }
                let sa = self.buffer.line_to_byte(a.0);
                let sc = self.buffer.line_to_byte(self.cursor.line);
                a.1 <= usize::MAX - sa && self.cursor.col <= usize::MAX - sc
            },
            None => true,
        }
    }

    /// Whether Ctrl+C can copy (see `copy_ok`).
    fn copy_applicable(&self) -> (b: bool)
        ensures
            b == copy_ok(self),
    {
        if !self.selection_fits_check() {
            return false;
        }
        match self.cursor.selection_range(&self.buffer) {
            Some(p) => self.is_boundary(p.0) && self.is_boundary(p.1),
            None => true,
        }
    }

    /// Whether Ctrl+X can cut (see `cut_ok`).
    fn cut_applicable(&self) -> (b: bool)
        ensures
            b == cut_ok(self),
    {
        if !self.selection_fits_check() {
            return false;
        }
        if !self.cursor.has_selection() {
            return true;
        }
        match self.cursor.selection_range(&self.buffer) {
            Some(p) => self.is_boundary(p.0) && self.is_boundary(p.1),
            None => true,
        }
    }

    /// Whether the normal-mode command bound to `key` can run on this
    /// state (see `normal_key_ok`).
    pub fn normal_key_applicable(&self, key: Key) -> (b: bool)
        requires
            self.wf(),
        ensures
            b == normal_key_ok(self, key),
    {
        let ctrl = key.modifiers == MOD_CONTROL;
        let typed = key.modifiers == MOD_NONE || key.modifiers == MOD_SHIFT;
        match key.code {
            KeyCode::Char(ch) => {
                if ctrl {
                    match ch {
                        'z' => self.undo_is_applicable(),
                        'y' => self.redo_is_applicable(),
                        'c' => self.copy_applicable(),
                        'x' => self.cut_applicable(),
                        _ => true,
                    }
                } else if typed {
                    self.cursor_on_boundary()
                } else {
                    true
                }
            },
            KeyCode::Down => ctrl || self.cursor.line < usize::MAX,
            KeyCode::Right | KeyCode::End => self.cursor.line < usize::MAX,
            KeyCode::Backspace => {
                if !self.cursor_on_boundary() {
                    return false;
                }
                let p = self.cursor_byte();
                p == 0 || self.is_boundary(p - 1)
            },
            KeyCode::Delete => {
                if !self.cursor_on_boundary() {
                    return false;
                }
                let p = self.cursor_byte();
                let len = self.buffer.len_bytes();
                p >= len || self.is_boundary(p + 1)
            },
            KeyCode::Enter => self.cursor_on_boundary() && self.cursor.line < usize::MAX,
            KeyCode::Tab => self.cursor_on_boundary(),
            _ => true,
        }
    }

    /// Whether `key` can be handled in the current mode (see `key_ok`).
    pub fn key_applicable(&self, key: Key) -> (b: bool)
        requires
            self.wf(),
        ensures
            b == key_ok(self, key),
    {
        match &self.mode {
            Mode::Normal => self.normal_key_applicable(key),
            Mode::Command { kind, .. } => {
                let find = match kind {
                    CommandKind::Find => true,
                    _ => false,
                };
                let enter = match key.code {
                    KeyCode::Enter => true,
                    _ => false,
                };
                if find && enter {
                    let ok = self.cursor_on_boundary();
                    let _ = self.buffer.len_bytes();
                    ok
                } else {
                    true
                }
            },
            _ => true,
        }
    }

    /// Whether `text` can be pasted at the cursor: the cursor is on a
    /// character boundary and the line count after the paste has a number.
    pub fn can_paste(&self, text: &str) -> (b: bool)
        requires
            self.wf(),
        ensures
            b == (self.cursor_ok() && self.paste_fits(text@)),
    {
        if !self.cursor_on_boundary() {
            return false;
        }
        let bytes = text.as_bytes();
        let n = bytes.len();
        let ghost b = bytes@;
        assert(b == vstd::utf8::encode_utf8(text@));
        let limit = usize::MAX - self.cursor.line;
        let mut i: usize = 0;
        let mut count: usize = 0;
        while i < n
            invariant
                i <= n,
                n == b.len(),
                b == bytes@,
                count == count_lf(b.take(i as int)),
                count <= limit,
                limit == usize::MAX - self.cursor.line,
                b == vstd::utf8::encode_utf8(text@),
            decreases n - i,
        {
            proof {
                assert(b.take(i + 1).drop_last() =~= b.take(i as int));
            }
            if bytes[i] == 10u8 {
                if count == limit {
                    proof {
                        assert(b.take(i + 1).last() == b[i as int]);
                        assert(count_lf(b.take(i + 1)) == count + 1);
                        lemma_count_lf_mono(b, i + 1, n as int);
                        assert(b.take(n as int) =~= b);
                    }
                    return false;
                }
                count += 1;
            }
            i += 1;
        }
        proof {
            assert(b.take(n as int) =~= b);
        }
        true
    }

    /// Whether `paste(system_text)` can run: the text it would paste (the
    /// system clipboard's when that has any, else the editor's clipboard)
    /// can go at the cursor.
    pub fn paste_applicable(&self, system_text: &Option<String>) -> (b: bool)
        requires
            self.wf(),
        ensures
            b == (self.cursor_ok() && self.paste_fits(
                match *system_text {
                    Some(s) => if s@.len() > 0 {
                        s@
                    } else {
                        self.clipboard@
                    },
                    None => self.clipboard@,
                },
            )),
    {
        match system_text {
            Some(s) => if s.as_str().is_empty() {
                self.can_paste(self.clipboard.as_str())
            } else {
                self.can_paste(s.as_str())
            },
            None => self.can_paste(self.clipboard.as_str()),
        }
    }

    /// Whether `event` can be handled now (see `event_ok`).
    pub fn event_applicable(&self, event: &InputEvent) -> (b: bool)
        requires
            self.wf(),
        ensures
            b == event_ok(self, *event),
    {
        match event {
            InputEvent::Key(k) => self.key_applicable(*k),
            InputEvent::Paste(text) => match self.mode {
                Mode::Normal => self.can_paste(text.as_str()),
                _ => true,
            },
            _ => true,
        }
    }
}

} // verus!
