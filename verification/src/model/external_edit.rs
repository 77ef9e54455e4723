//! Editing a draft in an external editor: one edit at a time.

use vstd::prelude::*;

use crate::text::opt_text;

verus! {

/// How far an edit is.
#[derive(Debug, Clone, Copy, PartialEq, Eq, Structural)]
pub enum ExternalEditPhase {
    Inactive,
    /// The editor runs.
    Editing,
    /// The editor ended well; its text waits to be taken over.
    RefillPending,
}

impl Default for ExternalEditPhase {
    fn default() -> (r: Self)
        ensures
            r == ExternalEditPhase::Inactive,
    {
        ExternalEditPhase::Inactive
    }
}

/// An edit.
#[derive(Debug, Clone, PartialEq, Eq)]
pub struct ExternalEditState {
    pub phase: ExternalEditPhase,
    /// The draft as it was when the edit began.
    pub suspended_text: String,
    /// The file that is edited.
    pub tmp_path: Option<String>,
    /// The editor.
    pub editor: Option<String>,
    /// Why the last edit failed.
    pub last_error: Option<String>,
}

/// An edit, with texts as characters.
#[verifier::ext_equal]
pub struct EditView {
    pub phase: ExternalEditPhase,
    pub suspended_text: Seq<char>,
    pub tmp_path: Option<Seq<char>>,
    pub editor: Option<Seq<char>>,
    pub last_error: Option<Seq<char>>,
}

impl View for ExternalEditState {
    type V = EditView;

    open spec fn view(&self) -> EditView {
        EditView {
            phase: self.phase,
            suspended_text: self.suspended_text@,
            tmp_path: opt_text(self.tmp_path),
            editor: opt_text(self.editor),
            last_error: opt_text(self.last_error),
        }
    }
}

/// No edit.
pub open spec fn no_edit() -> EditView {
    EditView {
        phase: ExternalEditPhase::Inactive,
        suspended_text: Seq::empty(),
        tmp_path: None,
        editor: None,
        last_error: None,
    }
}

/// The edit after one was to begin, and whether it began.
pub open spec fn edit_begun(
    e: EditView,
    draft: Seq<char>,
    path: Seq<char>,
    editor: Option<Seq<char>>,
) -> (EditView, bool) {
    if e.phase == ExternalEditPhase::Inactive {
        (
            EditView {
                phase: ExternalEditPhase::Editing,
                suspended_text: draft,
                tmp_path: Some(path),
                editor,
                last_error: None,
            },
            true,
        )
    } else {
        (e, false)
    }
}

/// The edit after it failed.
pub open spec fn edit_failed(e: EditView, message: Seq<char>) -> EditView {
    EditView {
        phase: ExternalEditPhase::Inactive,
        tmp_path: None,
        last_error: Some(message),
        ..e
    }
}

impl Default for ExternalEditState {
    fn default() -> (r: Self)
        ensures
            r@ == no_edit(),
    {
        let r = ExternalEditState {
            phase: ExternalEditPhase::Inactive,
            suspended_text: String::new(),
            tmp_path: None,
            editor: None,
            last_error: None,
        };
        assert(r@ =~= no_edit());
        r
    }
}

impl ExternalEditState {
    /// Begins an edit; refused while one is under way.
    pub fn suspend(&mut self, draft_text: &str, tmp_path: String, editor: Option<String>) -> (r: bool)
        ensures
            (final(self)@, r) == edit_begun(old(self)@, draft_text@, tmp_path@, opt_text(editor)),
    {
        if self.phase != ExternalEditPhase::Inactive {
            return false;
        }
        self.suspended_text = draft_text.to_owned();
        self.tmp_path = Some(tmp_path);
        self.editor = editor;
        self.phase = ExternalEditPhase::Editing;
        self.last_error = None;
        true
    }

    /// The editor ended well.
    pub fn mark_exited_ok(&mut self)
        ensures
            final(self)@ == (EditView { phase: ExternalEditPhase::RefillPending, ..old(self)@ }),
    {
        self.phase = ExternalEditPhase::RefillPending;
    }

    /// The text of the editor was taken over.
    pub fn settle(&mut self)
        ensures
            final(self)@ == no_edit(),
    {
        *self = ExternalEditState::default();
    }

    /// The edit was given up.
    pub fn cancel(&mut self)
        ensures
            final(self)@ == no_edit(),
    {
        *self = ExternalEditState::default();
    }

    /// The edit failed; the draft stays.
    pub fn fail(&mut self, message: String)
        ensures
            final(self)@ == edit_failed(old(self)@, message@),
    {
        self.phase = ExternalEditPhase::Inactive;
        self.tmp_path = None;
        self.last_error = Some(message);
    }

    /// Whether an edit is under way.
    pub fn is_active(&self) -> (r: bool)
        ensures
            r == (self@.phase != ExternalEditPhase::Inactive),
    {
        self.phase != ExternalEditPhase::Inactive
    }
}

/// While an edit is under way no other begins; one that failed keeps the draft,
/// and the next can begin.
pub proof fn law_one_edit_at_a_time(
    e: EditView,
    draft: Seq<char>,
    path: Seq<char>,
    editor: Option<Seq<char>>,
    message: Seq<char>,
)
    requires
        e.phase != ExternalEditPhase::Inactive,
    ensures
        edit_begun(e, draft, path, editor) == (e, false),
        edit_failed(e, message).suspended_text == e.suspended_text,
        edit_begun(edit_failed(e, message), draft, path, editor).1,
{
}

/// An edit that begins holds the draft, the file and the editor, and has not
/// failed; one that fails is over and says why.
pub proof fn law_edits_hold_the_draft(
    e: EditView,
    draft: Seq<char>,
    path: Seq<char>,
    editor: Option<Seq<char>>,
    message: Seq<char>,
)
    ensures
        e.phase == ExternalEditPhase::Inactive ==> ({
            let n = edit_begun(e, draft, path, editor);
            &&& n.1
            &&& n.0.phase == ExternalEditPhase::Editing
            &&& n.0.suspended_text == draft
            &&& n.0.tmp_path == Some(path)
            &&& n.0.editor == editor
            &&& n.0.last_error is None
        }),
        edit_failed(e, message).phase == ExternalEditPhase::Inactive,
        edit_failed(e, message).last_error == Some(message),
        edit_failed(e, message).tmp_path is None,
        edit_failed(e, message).suspended_text == e.suspended_text,
        edit_failed(e, message).editor == e.editor,
        no_edit().phase == ExternalEditPhase::Inactive,
        no_edit().suspended_text.len() == 0,
        no_edit().tmp_path is None,
        no_edit().editor is None,
        no_edit().last_error is None,
{
}

} // verus!
