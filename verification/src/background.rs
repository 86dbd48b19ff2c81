//! The editor's side of the work that runs beside editing: LaTeX builds,
//! the PDF preview and automatic saving. The caller runs the processes and
//! the clock; these functions decide what the editor shows and does next.
use vstd::prelude::*;
use crate::app::{
    build_failed_post, build_succeeded_post, lemma_letters_hold_no_separator, message_shown,
    note_edits_post, path_with_extension, with_extension, App, Key, KeyCode, MOD_CONTROL,
};
use crate::keys::InputEvent;
use crate::latex::CompileResult;

verus! {

/// A key that starts a build: Ctrl+B, or Ctrl+P.
pub open spec fn is_build_key(k: Key) -> bool {
    k.modifiers == MOD_CONTROL && (k.code == KeyCode::Char('b') || k.code == KeyCode::Char('p'))
}

/// The effect of `preview_launched` on the editor.
pub open spec fn preview_launched_post(pre: &App, post: &App, outcome: PreviewLaunch) -> bool {
    match outcome {
        PreviewLaunch::AlreadyOpen => *post == *pre,
        PreviewLaunch::NotInstalled => message_shown(
            pre,
            post,
            "Install zathura: https://pwmt.org/projects/zathura/download/"@,
        ),
        PreviewLaunch::NoPdf => message_shown(pre, post, "Build first — no PDF yet"@),
        PreviewLaunch::Opened(p) => message_shown(pre, post, "Preview opened: "@ + p@),
        PreviewLaunch::Failed(e) => message_shown(pre, post, "Failed to open zathura: "@ + e@),
    }
}

/// A build that finished with `result` took the editor from `pre` to
/// `mid` (see `build_finished`), and, when it succeeded without opening the
/// preview, on to `post` by noting edits made since (see
/// `note_edits_since_build`); otherwise `post` is `mid`.
pub open spec fn completed_via(pre: &App, mid: App, post: &App, result: CompileResult, open_preview: bool) -> bool {
    &&& (result.success ==> build_succeeded_post(pre, &mid, result, open_preview))
    &&& (!result.success ==> !open_preview && build_failed_post(pre, &mid, result))
    &&& if result.success && !open_preview {
        note_edits_post(&mid, post)
    } else {
        *post == mid
    }
}

/// Reporting the preview's `outcome` took the editor from `pre` to `mid`
/// (see `preview_launched`), and noting edits made since the build from
/// `mid` to `post`.
pub open spec fn opened_via(pre: &App, mid: App, post: &App, outcome: PreviewLaunch) -> bool {
    preview_launched_post(pre, &mid, outcome) && note_edits_post(&mid, post)
}

/// How long after the last edit the automatic build starts, in
/// milliseconds.
pub const AUTO_BUILD_DELAY_MS: u64 = 800;

/// Where the PDF of a build goes: next to the buffer's file, else a fixed
/// preview file.
pub open spec fn pdf_path_for(path: Option<Seq<char>>) -> Seq<char> {
    match path {
        Some(p) => path_with_extension(p, "pdf"@),
        None => "/tmp/muT_preview.pdf"@,
    }
}

/// How an attempt to open the preview viewer went.
pub enum PreviewLaunch {
    /// A viewer is running already.
    AlreadyOpen,
    /// The viewer is not installed.
    NotInstalled,
    /// There is no PDF to show yet.
    NoPdf,
    /// The viewer was started on the PDF at this path.
    Opened(String),
    /// Starting the viewer failed with this error.
    Failed(String),
}

impl App {
    /// The path the PDF of a build is written to.
    pub fn pdf_output_path(&self) -> (p: String)
        ensures
            p@ == pdf_path_for(self.buffer.spec_path()),
    {
        match self.buffer.path() {
            Some(p) => {
                proof {
                    reveal_strlit("pdf");
                    lemma_letters_hold_no_separator("pdf"@);
                }
                with_extension(p.as_str(), "pdf")
            },
            None => String::from_str("/tmp/muT_preview.pdf"),
        }
    }

    /// A background build finished. A successful build reports the PDF's
    /// size and returns whether the preview was asked to open on it; a
    /// failed one lists its errors and moves the cursor to the first.
    pub fn build_finished(&mut self, result: CompileResult) -> (open_preview: bool)
        requires
            !result.success ==> result.errors@.len() > 0,
            forall|i: int| 0 <= i < result.errors@.len() ==> #[trigger] result.errors@[i].line
                < usize::MAX,
        ensures
            result.success ==> build_succeeded_post(old(self), final(self), result, open_preview),
            !result.success ==> !open_preview && build_failed_post(old(self), final(self), result),
    {
        if result.success {
            self.build_succeeded(result)
        } else {
            self.build_failed(result);
            false
        }
    }

    /// A background build finished (see `build_finished`). When it
    /// succeeded and the preview is not to be opened now, the editor also
    /// says whether the text changed meanwhile (see
    /// `note_edits_since_build`); otherwise `preview_opened` does, once the
    /// caller has tried to open the preview.
    pub fn build_completed(&mut self, result: CompileResult) -> (open_preview: bool)
        requires
            !result.success ==> result.errors@.len() > 0,
            forall|i: int| 0 <= i < result.errors@.len() ==> #[trigger] result.errors@[i].line
                < usize::MAX,
        ensures
            exists|m: App| #[trigger] completed_via(old(self), m, final(self), result, open_preview),
    {
        let success = result.success;
        let open_preview = self.build_finished(result);
        let ghost m = *self;
        if success && !open_preview {
            self.note_edits_since_build();
        }
        assert(completed_via(old(self), m, self, result, open_preview));
        open_preview
    }

    /// The preview was to be opened after a successful build: report how
    /// that went (see `preview_launched`), then say whether the text
    /// changed meanwhile.
    pub fn preview_opened(&mut self, outcome: PreviewLaunch)
        ensures
            exists|m: App| #[trigger] opened_via(old(self), m, final(self), outcome),
    {
        self.preview_launched(outcome);
        let ghost m = *self;
        self.note_edits_since_build();
        assert(opened_via(old(self), m, self, outcome));
    }

    /// Before a key press is handled: a key that starts a build (Ctrl+B, or
    /// Ctrl+P, which builds unless it closes the preview) shows "Building…"
    /// at once, and the caller redraws. Returns whether it did.
    pub fn announce_build(&mut self, event: &InputEvent) -> (announced: bool)
        ensures
            announced == (*event matches InputEvent::Key(k) && is_build_key(k)),
            announced ==> message_shown(old(self), final(self), "Building…"@),
            !announced ==> *final(self) == *old(self),
    {
        let build_key = match event {
            InputEvent::Key(k) => k.modifiers == MOD_CONTROL && match k.code {
                KeyCode::Char(c) => c == 'b' || c == 'p',
                _ => false,
            },
            _ => false,
        };
        if build_key {
            self.set_message("Building…");
        }
        build_key
    }

    /// Ctrl+P: close the preview when it is open (`preview_open`), else ask
    /// for it to open once a build finishes. Returns whether the caller
    /// should close the viewer; otherwise it starts a build.
    pub fn toggle_preview(&mut self, preview_open: bool) -> (close: bool)
        ensures
            close == preview_open,
            preview_open ==> message_shown(old(self), final(self), "Preview closed"@),
            !preview_open ==> *final(self) == (App {
                open_zathura_on_complete: true,
                ..*old(self)
            }),
    {
        if preview_open {
            self.set_message("Preview closed");
            true
        } else {
            self.open_zathura_on_complete = true;
            false
        }
    }

    /// Report how opening the preview went.
    pub fn preview_launched(&mut self, outcome: PreviewLaunch)
        ensures
            preview_launched_post(old(self), final(self), outcome),
    {
        match outcome {
            PreviewLaunch::AlreadyOpen => {},
            PreviewLaunch::NotInstalled => {
                self.set_message("Install zathura: https://pwmt.org/projects/zathura/download/");
            },
            PreviewLaunch::NoPdf => {
                self.set_message("Build first — no PDF yet");
            },
            PreviewLaunch::Opened(p) => {
                let mut msg = String::from_str("Preview opened: ");
                msg.append(p.as_str());
                self.set_message(msg.as_str());
            },
            PreviewLaunch::Failed(e) => {
                let mut msg = String::from_str("Failed to open zathura: ");
                msg.append(e.as_str());
                self.set_message(msg.as_str());
            },
        }
    }

    /// Whether the automatic build starts now: one is pending and
    /// `elapsed_ms` milliseconds have passed since the last edit, at least
    /// `AUTO_BUILD_DELAY_MS`. Starting it ends the wait.
    pub fn poll_auto_build(&mut self, elapsed_ms: u64) -> (start: bool)
        ensures
            start == (old(self).debounce_requested && elapsed_ms >= AUTO_BUILD_DELAY_MS),
            *final(self) == (App {
                debounce_requested: old(self).debounce_requested && !start,
                ..*old(self)
            }),
    {
        if self.debounce_requested && elapsed_ms >= AUTO_BUILD_DELAY_MS {
            self.debounce_requested = false;
            true
        } else {
            false
        }
    }

    /// Whether an automatic save is due: saving is on (`interval_secs` is
    /// not zero), the buffer has unsaved changes, and `elapsed_secs` since
    /// the last automatic save reach the interval.
    pub fn auto_save_due(&self, interval_secs: u64, elapsed_secs: u64) -> (due: bool)
        ensures
            due == (interval_secs != 0 && self.buffer.spec_modified() && elapsed_secs
                >= interval_secs),
    {
        if interval_secs == 0 {
            return false;
        }
        if !self.buffer.modified() {
            return false;
        }
        elapsed_secs >= interval_secs
    }
}

} // verus!
