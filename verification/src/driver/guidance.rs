//! The screen before there is a connection: the user types a token, tries again
//! or leaves. A token is never shown and never kept on disk.

use vstd::prelude::*;

use vstd::utf8::encode_utf8;

use crate::input::keymap::Command;
use crate::text::{cat3, chars_of, copy_opt, opt_text, text_of, trim, trimmed, whitespace};
use crate::text_laws::law_blank_texts_are_whitespace;

verus! {

/// What the screen knows.
#[derive(Debug, Clone, PartialEq, Eq)]
pub struct Guidance {
    /// Whether a token is being typed.
    pub entering: bool,
    pub draft: String,
    pub token: Option<String>,
}

/// What a key leads to.
#[derive(Debug, Clone, PartialEq, Eq)]
pub enum GuidanceStep {
    Nothing,
    /// Show a hint.
    Show(String),
    /// Connect with a token.
    Connect(String),
    Exit,
}

/// What a key leads to.
pub enum GuidanceStepView {
    Nothing,
    Show(Seq<char>),
    Connect(Seq<char>),
    Exit,
}

impl View for GuidanceStep {
    type V = GuidanceStepView;

    open spec fn view(&self) -> GuidanceStepView {
        match *self {
            GuidanceStep::Nothing => GuidanceStepView::Nothing,
            GuidanceStep::Show(t) => GuidanceStepView::Show(t@),
            GuidanceStep::Connect(t) => GuidanceStepView::Connect(t@),
            GuidanceStep::Exit => GuidanceStepView::Exit,
        }
    }
}

/// A star for each byte.
pub open spec fn stars(n: nat) -> Seq<char> {
    Seq::new(n, |i: int| '*')
}

/// The hint: while a token is typed, a star for each of its bytes.
pub open spec fn hint(entering: bool, has_token: bool, bytes: nat) -> Seq<char> {
    if entering {
        "正在输入 token（不显示原文）: "@ + stars(bytes) + " 字符 — Enter 连接，Esc 取消"@
    } else if has_token {
        "[r] 重试连接  [i] 重新输入 token  [q] 退出"@
    } else {
        "请设置 DSH_TOKEN 或按 [i] 粘贴 token（不落盘、不回显）— [q] 退出"@
    }
}

/// What the screen knows.
#[verifier::ext_equal]
pub struct GuidanceView {
    pub entering: bool,
    pub draft: Seq<char>,
    pub token: Option<Seq<char>>,
}

impl View for Guidance {
    type V = GuidanceView;

    open spec fn view(&self) -> GuidanceView {
        GuidanceView { entering: self.entering, draft: self.draft@, token: opt_text(self.token) }
    }
}

impl GuidanceView {
    /// The hint that is shown.
    pub open spec fn shown(self) -> Seq<char> {
        hint(self.entering, self.token is Some, encode_utf8(self.draft).len())
    }
}

/// A text without its last character.
pub open spec fn shortened(s: Seq<char>) -> Seq<char> {
    if s.len() == 0 {
        s
    } else {
        s.drop_last()
    }
}

/// What a key does to the screen, and what it leads to.
pub open spec fn guided(g: GuidanceView, c: Command) -> (GuidanceView, GuidanceStepView) {
    match (g.entering, c) {
        (true, Command::PickerInput(t)) => {
            let n = GuidanceView { draft: g.draft + t@, ..g };
            (n, GuidanceStepView::Show(n.shown()))
        },
        (true, Command::PickerBackspace) => {
            let n = GuidanceView { draft: shortened(g.draft), ..g };
            (n, GuidanceStepView::Show(n.shown()))
        },
        (true, Command::SubmitInput) => {
            let entered = trimmed(g.draft);
            let n = GuidanceView { entering: false, draft: Seq::empty(), ..g };
            if entered.len() == 0 {
                (n, GuidanceStepView::Show(n.shown()))
            } else {
                (
                    GuidanceView { token: Some(entered), ..n },
                    GuidanceStepView::Connect(entered),
                )
            }
        },
        (true, Command::ClosePicker) => {
            let n = GuidanceView { entering: false, draft: Seq::empty(), ..g };
            (n, GuidanceStepView::Show(n.shown()))
        },
        (false, Command::InsertMode) => {
            let n = GuidanceView { entering: true, draft: Seq::empty(), ..g };
            (n, GuidanceStepView::Show(n.shown()))
        },
        (false, Command::RetryProbe) => match g.token {
            Some(t) => (g, GuidanceStepView::Connect(t)),
            None => (g, GuidanceStepView::Nothing),
        },
        (false, Command::Quit) => (g, GuidanceStepView::Exit),
        _ => (g, GuidanceStepView::Nothing),
    }
}

fn star_text(n: usize) -> (r: String)
    ensures
        r@ == stars(n as nat),
{
    let mut r = String::new();
    let mut i: usize = 0;
    assert(r@ =~= stars(0));
    while i < n
        invariant
            i <= n,
            r@ == stars(i as nat),
        decreases n - i,
    {
        r.push('*');
        i = i + 1;
        assert(r@ =~= stars(i as nat));
    }
    r
}

impl Guidance {
    /// The screen with a token, where there is one.
    pub fn new(token: Option<String>) -> (r: Guidance)
        ensures
            r@ == (GuidanceView {
                entering: false,
                draft: Seq::empty(),
                token: opt_text(token),
            }),
    {
        let r = Guidance { entering: false, draft: String::new(), token };
        assert(r.draft@ =~= Seq::empty());
        r
    }

    /// The hint that is shown.
    pub fn hint_text(&self) -> (r: String)
        ensures
            r@ == self@.shown(),
    {
        if self.entering {
            let n: usize = self.draft.as_str().as_bytes().len();
            cat3(
                "正在输入 token（不显示原文）: ",
                star_text(n).as_str(),
                " 字符 — Enter 连接，Esc 取消",
            )
        } else if self.token.is_some() {
            "[r] 重试连接  [i] 重新输入 token  [q] 退出".to_owned()
        } else {
            "请设置 DSH_TOKEN 或按 [i] 粘贴 token（不落盘、不回显）— [q] 退出".to_owned()
        }
    }

    fn clear(&mut self, entering: bool)
        ensures
            final(self)@ == (GuidanceView { entering, draft: Seq::empty(), ..old(self)@ }),
    {
        self.entering = entering;
        self.draft = String::new();
        assert(self.draft@ =~= Seq::empty());
    }

    /// Takes a key.
    pub fn take(&mut self, command: &Command) -> (r: GuidanceStep)
        ensures
            (final(self)@, r@) == guided(old(self)@, *command),
    {
        if self.entering {
            match command {
                Command::PickerInput(t) => {
                    self.draft.append(t.as_str());
                    GuidanceStep::Show(self.hint_text())
                },
                Command::PickerBackspace => {
                    let cs = chars_of(self.draft.as_str());
                    if cs.len() > 0 {
                        let n: usize = cs.len();
                        self.draft = text_of(&cs, 0, n - 1);
                        assert(self.draft@ =~= shortened(cs@));
                    }
                    GuidanceStep::Show(self.hint_text())
                },
                Command::SubmitInput => {
                    let entered = trim(self.draft.as_str());
                    self.clear(false);
                    if entered.as_str().is_empty() {
                        return GuidanceStep::Show(self.hint_text());
                    }
                    self.token = Some(entered.clone());
                    GuidanceStep::Connect(entered)
                },
                Command::ClosePicker => {
                    self.clear(false);
                    GuidanceStep::Show(self.hint_text())
                },
                _ => GuidanceStep::Nothing,
            }
        } else {
            match command {
                Command::InsertMode => {
                    self.clear(true);
                    GuidanceStep::Show(self.hint_text())
                },
                Command::RetryProbe => match copy_opt(&self.token) {
                    Some(t) => GuidanceStep::Connect(t),
                    None => GuidanceStep::Nothing,
                },
                Command::Quit => GuidanceStep::Exit,
                _ => GuidanceStep::Nothing,
            }
        }
    }
}

/// A hint says nothing of a token but how long it is: two drafts of one length,
/// and two tokens, show the same.
pub proof fn law_hints_hide_tokens(a: GuidanceView, b: GuidanceView)
    requires
        a.entering == b.entering,
        (a.token is Some) == (b.token is Some),
        encode_utf8(a.draft).len() == encode_utf8(b.draft).len(),
    ensures
        a.shown() == b.shown(),
{
}

/// Typing goes to the end of the draft and erasing takes its last character;
/// neither connects, and the token stays.
pub proof fn law_tokens_are_typed_at_the_end(g: GuidanceView, t: String)
    requires
        g.entering,
    ensures
        guided(g, Command::PickerInput(t)).0.draft == g.draft + t@,
        guided(g, Command::PickerInput(t)).0.entering,
        guided(g, Command::PickerInput(t)).0.token == g.token,
        guided(g, Command::PickerInput(t)).1 is Show,
        g.draft.len() > 0 ==> guided(g, Command::PickerBackspace).0.draft == g.draft.take(
            g.draft.len() - 1,
        ),
        g.draft.len() == 0 ==> guided(g, Command::PickerBackspace).0.draft == g.draft,
        guided(g, Command::PickerBackspace).0.entering,
        guided(g, Command::PickerBackspace).0.token == g.token,
        guided(g, Command::PickerBackspace).1 is Show,
{
}

/// A token that was typed is connected with and kept, without the space around
/// it; a blank one is not, and the one before stays.
pub proof fn law_typed_tokens_are_connected_with(g: GuidanceView, k: int)
    requires
        g.entering,
    ensures
        ({
            let n = guided(g, Command::SubmitInput);
            &&& !n.0.entering && n.0.draft.len() == 0
            &&& 0 <= k < g.draft.len() && !whitespace(g.draft[k]) ==> n.1
                == GuidanceStepView::Connect(trimmed(g.draft)) && n.0.token == Some(
                trimmed(g.draft),
            )
            &&& (forall|i: int| 0 <= i < g.draft.len() ==> whitespace(#[trigger] g.draft[i]))
                ==> n.1 is Show && n.0.token == g.token
        }),
{
    law_blank_texts_are_whitespace(g.draft);
}

/// Giving up forgets the draft and nothing else; beginning again starts from an
/// empty one; the kept token is tried again, and leaving leaves.
pub proof fn law_tokens_can_be_given_up_and_tried_again(g: GuidanceView)
    ensures
        g.entering ==> guided(g, Command::ClosePicker).0 == (GuidanceView {
            entering: false,
            draft: Seq::empty(),
            token: g.token,
        }) && guided(g, Command::ClosePicker).1 is Show,
        !g.entering ==> guided(g, Command::InsertMode).0 == (GuidanceView {
            entering: true,
            draft: Seq::empty(),
            token: g.token,
        }) && guided(g, Command::InsertMode).1 is Show,
        !g.entering && g.token is Some ==> guided(g, Command::RetryProbe) == (
            g,
            GuidanceStepView::Connect(g.token->0),
        ),
        !g.entering && g.token is None ==> guided(g, Command::RetryProbe) == (
            g,
            GuidanceStepView::Nothing,
        ),
        !g.entering ==> guided(g, Command::Quit) == (g, GuidanceStepView::Exit),
{
}

/// Only leaving leaves, and only a token that was typed or kept is connected
/// with.
pub proof fn law_other_keys_do_nothing(g: GuidanceView, c: Command)
    ensures
        guided(g, c).1 is Exit ==> !g.entering && c is Quit,
        guided(g, c).1 is Connect ==> (g.entering && c is SubmitInput) || (!g.entering
            && c is RetryProbe),
        guided(g, c).1 is Nothing ==> guided(g, c).0 == g,
        g.entering && !(c is PickerInput) && !(c is PickerBackspace) && !(c is SubmitInput) && !(
        c is ClosePicker) ==> guided(g, c) == (g, GuidanceStepView::Nothing),
        !g.entering && !(c is InsertMode) && !(c is RetryProbe) && !(c is Quit) ==> guided(g, c)
            == (g, GuidanceStepView::Nothing),
{
}

/// Every byte of a draft shows as a star, and nothing else of it shows.
pub proof fn law_hints_show_stars(bytes: nat, i: int)
    requires
        0 <= i < bytes,
    ensures
        stars(bytes).len() == bytes,
        stars(bytes)[i] == '*',
        hint(true, true, bytes) == hint(true, false, bytes),
        hint(true, true, bytes).len() == hint(true, true, 0).len() + bytes,
{
}

} // verus!
