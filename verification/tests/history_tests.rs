use mu_t::cursor::Cursor;
use mu_t::history::{Edit, History};

fn insert(at: usize, text: &str) -> Edit {
    Edit {
        byte_idx: at,
        deleted: String::new(),
        inserted: String::from(text),
        cursor_before: Cursor { line: 0, col: at, selecting: false, anchor: None },
        cursor_after: Cursor { line: 0, col: at + text.len(), selecting: false, anchor: None },
    }
}

#[test]
fn undo_then_redo_gives_the_same_edit() {
    let mut h = History::new();
    h.push(insert(0, "xy"));
    let u = h.undo().unwrap();
    assert!(!h.can_undo());
    assert!(h.can_redo());
    let r = h.redo().unwrap();
    assert_eq!(u.inserted, r.inserted);
    assert_eq!(u.byte_idx, r.byte_idx);
    assert!(h.redo().is_none());
}

#[test]
fn a_new_edit_drops_the_redo_history() {
    let mut h = History::new();
    h.push(insert(0, "xy"));
    h.undo();
    assert!(h.can_redo());
    h.push(insert(0, "z"));
    assert!(!h.can_redo());
    assert!(h.redo().is_none());
    assert_eq!(h.undo().unwrap().inserted, "z");
}

#[test]
fn characters_typed_in_a_row_are_one_step() {
    let mut h = History::new();
    h.push(insert(0, "a"));
    h.push(insert(1, "b"));
    h.push(insert(2, "c"));
    let e = h.undo().unwrap();
    assert_eq!(e.inserted, "abc");
    assert_eq!(e.byte_idx, 0);
    assert_eq!(e.deleted, "");
    assert_eq!(e.cursor_before.col, 0);
    assert_eq!(e.cursor_after.col, 3);
    assert!(!h.can_undo());
    // a character typed elsewhere starts a new step
    h.push(insert(5, "d"));
    h.push(insert(0, "e"));
    assert_eq!(h.undo().unwrap().inserted, "e");
    assert_eq!(h.undo().unwrap().inserted, "d");
}

#[test]
fn a_one_character_paste_is_its_own_step() {
    let mut h = History::new();
    h.push(insert(0, "a"));
    h.push_step(insert(1, "b"));
    // typing on after the paste is not merged into it either
    h.push(insert(2, "c"));
    assert_eq!(h.undo().unwrap().inserted, "c");
    assert_eq!(h.undo().unwrap().inserted, "b");
    assert_eq!(h.undo().unwrap().inserted, "a");
    assert!(!h.can_undo());
}

#[test]
fn typing_after_a_redo_continues_the_redone_step() {
    let mut h = History::new();
    h.push(insert(0, "a"));
    h.undo();
    h.redo();
    h.push(insert(1, "b"));
    let e = h.undo().unwrap();
    assert_eq!(e.inserted, "ab");
    assert_eq!(e.cursor_after.col, 2);
    assert!(!h.can_undo());
}

#[test]
fn typing_after_an_undo_starts_a_new_step() {
    let mut h = History::new();
    h.push(insert(0, "a"));
    h.push(insert(1, "b"));
    h.undo();
    h.push(insert(0, "x"));
    h.push(insert(1, "y"));
    assert_eq!(h.undo().unwrap().inserted, "xy");
    assert!(!h.can_undo());
}

#[test]
fn history_keeps_at_most_a_thousand_steps() {
    let mut h = History::new();
    for i in 0..1005 {
        h.push(insert(i * 10, "xy"));
    }
    let mut n = 0;
    while h.undo().is_some() {
        n += 1;
    }
    assert_eq!(n, 1000);
    h.clear();
    assert!(!h.can_undo() && !h.can_redo());
}
