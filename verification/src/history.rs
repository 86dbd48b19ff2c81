//! Undo/redo history in which a run of typed characters is one undo step.
use vstd::prelude::*;
use vstd::utf8::encode_utf8;
use crate::cursor::Cursor;

verus! {

/// A single reversible edit operation.
#[derive(Debug, Clone)]
pub struct Edit {
    /// Byte index where the edit occurred.
    pub byte_idx: usize,
    /// Text that was removed (empty for pure insertions).
    pub deleted: String,
    /// Text that was inserted (empty for pure deletions).
    pub inserted: String,
    /// Cursor state before the edit.
    pub cursor_before: Cursor,
    /// Cursor state after the edit.
    pub cursor_after: Cursor,
}

/// An edit with its texts as character sequences.
pub struct EditView {
    pub byte_idx: usize,
    pub deleted: Seq<char>,
    pub inserted: Seq<char>,
    pub cursor_before: Cursor,
    pub cursor_after: Cursor,
}

impl View for Edit {
    type V = EditView;

    open spec fn view(&self) -> EditView {
        EditView {
            byte_idx: self.byte_idx,
            deleted: self.deleted@,
            inserted: self.inserted@,
            cursor_before: self.cursor_before,
            cursor_after: self.cursor_after,
        }
    }
}

/// The abstract history: the edits, the position that splits them into
/// undo history `stack[..pos]` and redo history `stack[pos..]`, the bound
/// on the number of edits kept, and, step by step, whether a step is sealed
/// (a paste, into which nothing is merged).
pub struct HistoryState {
    pub stack: Seq<EditView>,
    pub pos: nat,
    pub max_len: nat,
    pub sealed: Seq<bool>,
}

/// Simple undo/redo stack with coalescing of adjacent character insertions.
#[derive(Debug)]
pub struct History {
    /// Past edits (index `pos` is the next one to undo).
    stack: Vec<Edit>,
    /// Position in the stack. `stack[..pos]` is the undo history,
    /// `stack[pos..]` is the redo history.
    pos: usize,
    /// Maximum number of entries before oldest entries are dropped.
    max_len: usize,
    /// For each edit, whether it is sealed: a paste, into which nothing is
    /// merged.
    sealed: Vec<bool>,
}

impl View for History {
    type V = HistoryState;

    closed spec fn view(&self) -> HistoryState {
        HistoryState {
            stack: self.stack@.map_values(|e: Edit| e@),
            pos: self.pos as nat,
            max_len: self.max_len as nat,
            sealed: self.sealed@,
        }
    }
}

/// Number of UTF-8 bytes of a text.
pub open spec fn byte_len(s: Seq<char>) -> nat {
    encode_utf8(s).len()
}

/// An insertion of at most one byte that deletes nothing.
pub open spec fn is_single_insert(e: EditView) -> bool {
    e.deleted.len() == 0 && byte_len(e.inserted) <= 1
}

/// `e` continues the typing recorded in `last`: `e` is a single insertion,
/// `last` deletes nothing, and `e` starts where `last`'s text ends.
pub open spec fn coalesces(last: EditView, e: EditView) -> bool {
    &&& is_single_insert(e)
    &&& last.deleted.len() == 0
    &&& last.byte_idx + byte_len(last.inserted) == e.byte_idx
}

/// `last` extended by `e`: one edit covering both insertions.
pub open spec fn merge(last: EditView, e: EditView) -> EditView {
    EditView { inserted: last.inserted + e.inserted, cursor_after: e.cursor_after, ..last }
}

/// The number of undo steps kept.
pub open spec fn history_limit() -> nat {
    1000
}

/// A history keeps at most `history_limit()` steps, each with its seal.
pub open spec fn history_wf(h: HistoryState) -> bool {
    &&& h.pos <= h.stack.len() <= h.max_len
    &&& h.max_len == history_limit()
    &&& h.sealed.len() == h.stack.len()
}

/// `e` is merged into the step that an undo would hand out now: that step
/// is not sealed and `e` continues its typing.
pub open spec fn continues_step(h: HistoryState, e: EditView) -> bool {
    &&& h.pos > 0
    &&& !h.sealed[h.pos - 1]
    &&& coalesces(h.stack[h.pos - 1], e)
}

/// The history with `e` as a new undo step, sealed or not: the redo
/// history is dropped and, past the limit, the oldest step too.
pub open spec fn with_new_step(h: HistoryState, e: EditView, sealed: bool) -> HistoryState {
    let kept = h.stack.take(h.pos as int);
    let seals = h.sealed.take(h.pos as int);
    if kept.len() + 1 > h.max_len {
        HistoryState {
            stack: kept.push(e).drop_first(),
            pos: h.pos,
            max_len: h.max_len,
            sealed: seals.push(sealed).drop_first(),
        }
    } else {
        HistoryState {
            stack: kept.push(e),
            pos: h.pos + 1,
            max_len: h.max_len,
            sealed: seals.push(sealed),
        }
    }
}

/// The history after recording the edit `e` of typing or editing: the redo
/// history is dropped, and `e` is merged into the step an undo would hand
/// out when it continues it, otherwise it becomes a new step.
pub open spec fn spec_push(h: HistoryState, e: EditView) -> HistoryState {
    let kept = h.stack.take(h.pos as int);
    if continues_step(h, e) {
        HistoryState {
            stack: kept.update(kept.len() - 1, merge(kept.last(), e)),
            sealed: h.sealed.take(h.pos as int),
            ..h
        }
    } else {
        with_new_step(h, e, false)
    }
}

/// The history after recording `e` as a sealed step of its own (a paste):
/// it is never merged, and nothing is merged into it.
pub open spec fn spec_push_step(h: HistoryState, e: EditView) -> HistoryState {
    with_new_step(h, e, true)
}

/// Undo: step back over the last edit of the undo history and hand it out.
pub open spec fn spec_undo(h: HistoryState) -> (HistoryState, Option<EditView>) {
    if h.pos == 0 {
        (h, None)
    } else {
        (HistoryState { pos: (h.pos - 1) as nat, ..h }, Some(h.stack[h.pos - 1]))
    }
}

/// Redo: step forward over the first edit of the redo history and hand it
/// out.
pub open spec fn spec_redo(h: HistoryState) -> (HistoryState, Option<EditView>) {
    if h.pos >= h.stack.len() {
        (h, None)
    } else {
        (HistoryState { pos: h.pos + 1, ..h }, Some(h.stack[h.pos as int]))
    }
}

fn copy_edit(e: &Edit) -> (r: Edit)
    ensures
        r@ == e@,
{
    Edit {
        byte_idx: e.byte_idx,
        deleted: e.deleted.clone(),
        inserted: e.inserted.clone(),
        cursor_before: e.cursor_before,
        cursor_after: e.cursor_after,
    }
}

impl History {
    pub open spec fn wf(&self) -> bool {
        history_wf(self@)
    }

    pub fn new() -> (h: Self)
        ensures
            h.wf(),
            h@.stack.len() == 0,
            h@.pos == 0,
            h@.max_len == 1000,
    {
        let h = History { stack: Vec::new(), pos: 0, max_len: 1000, sealed: Vec::new() };
        assert(h@.stack =~= Seq::<EditView>::empty());
        h
    }

    /// Record an edit of typing or editing, discarding any redo history
    /// ahead of `pos`. A single-character insertion that continues the step
    /// an undo would hand out (not a paste) is merged into it.
    pub fn push(&mut self, edit: Edit)
        requires
            old(self).wf(),
        ensures
            final(self).wf(),
            final(self)@ == spec_push(old(self)@, edit@),
    {
        let ghost h = self@;
        let ghost kept = h.stack.take(h.pos as int);
        let single = edit.deleted.as_str().is_empty() && edit.inserted.as_str().as_bytes().len() <= 1;
        assert(single == is_single_insert(edit@));
        if self.pos > 0 && !self.sealed[self.pos - 1] {
            // Discard redo entries
            self.stack.truncate(self.pos);
            self.sealed.truncate(self.pos);
            assert(self@.stack =~= kept);
            assert(self@.sealed =~= h.sealed.take(h.pos as int));
            let mut last = self.stack.pop().unwrap();
            assert(last@ == kept.last());
            let is_adjacent = edit.byte_idx >= last.byte_idx && edit.byte_idx - last.byte_idx
                == last.inserted.as_str().as_bytes().len();
            if single && last.deleted.as_str().is_empty() && is_adjacent {
                last.inserted.append(edit.inserted.as_str());
                last.cursor_after = edit.cursor_after;
                self.stack.push(last);
                assert(self@.stack =~= kept.update(kept.len() - 1, merge(kept.last(), edit@)));
                return ;
            }
            self.stack.push(last);
            assert(self@.stack =~= kept);
            assert(self@.stack.take(self@.pos as int) =~= kept);
            assert(self@.sealed.take(self@.pos as int) =~= h.sealed.take(h.pos as int));
        }
        self.push_new_step(edit, false);
    }

    /// Record an edit as a sealed undo step of its own (a paste): it is
    /// never merged, and nothing typed afterwards is merged into it.
    pub fn push_step(&mut self, edit: Edit)
        requires
            old(self).wf(),
        ensures
            final(self).wf(),
            final(self)@ == spec_push_step(old(self)@, edit@),
    {
        self.push_new_step(edit, true);
    }

    fn push_new_step(&mut self, edit: Edit, sealed: bool)
        requires
            old(self).wf(),
        ensures
            final(self).wf(),
            final(self)@ == with_new_step(old(self)@, edit@, sealed),
    {
        let ghost kept = self@.stack.take(self@.pos as int);
        let ghost seals = self@.sealed.take(self@.pos as int);
        // Discard redo entries
        self.stack.truncate(self.pos);
        self.sealed.truncate(self.pos);
        assert(self@.stack =~= kept);
        assert(self@.sealed =~= seals);
        self.stack.push(edit);
        self.sealed.push(sealed);
        self.pos += 1;
        assert(self@.stack =~= kept.push(edit@));
        assert(self@.sealed =~= seals.push(sealed));
        // Drop oldest if over limit
        if self.stack.len() > self.max_len {
            self.stack.remove(0);
            self.sealed.remove(0);
            self.pos -= 1;
            assert(self@.stack =~= kept.push(edit@).drop_first());
            assert(self@.sealed =~= seals.push(sealed).drop_first());
        }
    }

    /// Undo the most recent edit, handing it out to be reversed.
    pub fn undo(&mut self) -> (r: Option<Edit>)
        requires
            old(self).wf(),
        ensures
            final(self).wf(),
            final(self)@ == spec_undo(old(self)@).0,
            match r {
                Some(e) => spec_undo(old(self)@).1 == Some(e@),
                None => spec_undo(old(self)@).1 is None,
            },
    {
        if self.pos == 0 {
            return None;
        }
        self.pos -= 1;
        let edit = copy_edit(&self.stack[self.pos]);
        Some(edit)
    }

    /// Redo the last undone edit, handing it out to be applied again.
    pub fn redo(&mut self) -> (r: Option<Edit>)
        requires
            old(self).wf(),
        ensures
            final(self).wf(),
            final(self)@ == spec_redo(old(self)@).0,
            match r {
                Some(e) => spec_redo(old(self)@).1 == Some(e@),
                None => spec_redo(old(self)@).1 is None,
            },
    {
        if self.pos >= self.stack.len() {
            return None;
        }
        let edit = copy_edit(&self.stack[self.pos]);
        self.pos += 1;
        Some(edit)
    }

    /// The edit that the next undo would hand out.
    pub fn peek_undo(&self) -> (r: Option<&Edit>)
        requires
            self.wf(),
        ensures
            match r {
                Some(e) => spec_undo(self@).1 == Some(e@),
                None => spec_undo(self@).1 is None,
            },
    {
        if self.pos == 0 {
            None
        } else {
            Some(&self.stack[self.pos - 1])
        }
    }

    /// The edit that the next redo would hand out.
    pub fn peek_redo(&self) -> (r: Option<&Edit>)
        requires
            self.wf(),
        ensures
            match r {
                Some(e) => spec_redo(self@).1 == Some(e@),
                None => spec_redo(self@).1 is None,
            },
    {
        if self.pos >= self.stack.len() {
            None
        } else {
            Some(&self.stack[self.pos])
        }
    }

    /// Whether there are any undos available.
    pub fn can_undo(&self) -> (b: bool)
        ensures
            b == (self@.pos > 0),
    {
        self.pos > 0
    }

    /// Whether there are any redos available.
    pub fn can_redo(&self) -> (b: bool)
        ensures
            b == (self@.pos < self@.stack.len()),
    {
        self.pos < self.stack.len()
    }

    /// Clear all history (e.g. after opening a new file).
    pub fn clear(&mut self)
        requires
            old(self).wf(),
        ensures
            final(self).wf(),
            final(self)@.stack.len() == 0,
            final(self)@.pos == 0,
            final(self)@.max_len == old(self)@.max_len,
    {
        self.stack.clear();
        self.sealed.clear();
        self.pos = 0;
        assert(self@.stack =~= Seq::<EditView>::empty());
    }
}

// ---------------------------------------------------------------------------
// Laws
/// Redoing right after an undo hands out the edit that was undone and
/// restores the history.
pub proof fn law_redo_undoes_undo(h: HistoryState)
    requires
        history_wf(h),
        spec_undo(h).1 is Some,
    ensures
        spec_redo(spec_undo(h).0) == (h, spec_undo(h).1),
{
}

/// Undoing right after a redo hands out the edit that was redone and
/// restores the history.
pub proof fn law_undo_undoes_redo(h: HistoryState)
    requires
        history_wf(h),
        spec_redo(h).1 is Some,
    ensures
        spec_undo(spec_redo(h).0) == (h, spec_redo(h).1),
{
}

/// After recording an edit, typed or pasted, nothing is left to redo, and
/// something is left to undo.
pub proof fn law_push_drops_redo(h: HistoryState, e: EditView)
    requires
        history_wf(h),
    ensures
        spec_push(h, e).pos == spec_push(h, e).stack.len(),
        spec_redo(spec_push(h, e)).1 is None,
        spec_undo(spec_push(h, e)).1 is Some,
        history_wf(spec_push(h, e)),
        spec_push_step(h, e).pos == spec_push_step(h, e).stack.len(),
        spec_redo(spec_push_step(h, e)).1 is None,
        spec_undo(spec_push_step(h, e)).1 is Some,
        history_wf(spec_push_step(h, e)),
{
}

/// Recording an edit that does not continue the step an undo would hand
/// out adds it as one new step on top of the undo history; past the limit
/// of `history_limit()` steps the oldest is dropped, so a history never
/// holds more than that.
pub proof fn law_new_step_on_top(h: HistoryState, e: EditView)
    requires
        history_wf(h),
        !continues_step(h, e),
    ensures
        ({
            let kept = h.stack.take(h.pos as int);
            let r = spec_push(h, e);
            &&& r.stack == if kept.len() < history_limit() {
                kept.push(e)
            } else {
                kept.push(e).drop_first()
            }
            &&& r.pos == r.stack.len() <= history_limit()
            &&& spec_undo(r).1 == Some(e)
        }),
{
}

/// A character typed right after the text of the step an undo would hand
/// out, when that step inserts without deleting and is no paste, is merged
/// into it: the number of steps to undo stays, and the next undo hands out
/// the step with the character appended. So adjacent typed characters are
/// one undo step, also after an undo or a redo.
pub proof fn law_typing_is_one_step(h: HistoryState, e: EditView)
    requires
        history_wf(h),
        h.pos > 0,
        !h.sealed[h.pos - 1],
        coalesces(h.stack[h.pos - 1], e),
    ensures
        spec_push(h, e).pos == h.pos,
        spec_undo(spec_push(h, e)).1 == Some(merge(h.stack[h.pos - 1], e)),
{
}

/// A pasted edit is an undo step of its own: the undo right after it hands
/// out exactly that edit, and an edit recorded next is not merged into it,
/// so undoing twice then hands out that edit and the paste.
pub proof fn law_paste_is_own_step(h: HistoryState, e: EditView, next: EditView)
    requires
        history_wf(h),
    ensures
        spec_undo(spec_push_step(h, e)).1 == Some(e),
        !continues_step(spec_push_step(h, e), next),
        ({
            let first = spec_undo(spec_push(spec_push_step(h, e), next));
            &&& first.1 == Some(next)
            &&& spec_undo(first.0).1 == Some(e)
        }),
{
}

/// An edit that inserts more than one byte, or deletes anything, is never
/// merged: it becomes an undo step of its own.
pub proof fn law_multi_byte_edit_is_own_step(h: HistoryState, e: EditView)
    requires
        history_wf(h),
        !is_single_insert(e),
    ensures
        spec_undo(spec_push(h, e)).1 == Some(e),
{
}

/// Undo is available exactly when an undo hands out an edit.
pub proof fn law_can_undo_iff_undo_gives(h: HistoryState)
    ensures
        (h.pos > 0) <==> spec_undo(h).1 is Some,
        (h.pos < h.stack.len()) <==> spec_redo(h).1 is Some,
{
}

} // verus!
