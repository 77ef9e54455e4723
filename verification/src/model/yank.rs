//! What is copied: of the block in focus, and of a selection of blocks. It
//! stays in memory.

use vstd::prelude::*;

use crate::json::{display, json_display};
use crate::model::block::{or_empty, Block, BlockView};
use crate::text::{cat3, join, joined, opt_text, texts, trim, trimmed};

verus! {

/// How blocks are selected: one, or whole ones up to the cursor.
#[derive(Debug, Clone, Copy, PartialEq, Eq, Structural)]
pub enum VisualMode {
    Char,
    Line,
}

/// A selection of blocks.
#[derive(Debug, Clone, Copy, PartialEq, Eq, Structural)]
pub struct VisualSelection {
    pub anchor: usize,
    pub cursor: usize,
    pub mode: VisualMode,
}

/// The first and the last block of a selection.
pub open spec fn selected(s: VisualSelection) -> (usize, usize) {
    if s.mode == VisualMode::Char {
        (s.anchor, s.anchor)
    } else if s.anchor <= s.cursor {
        (s.anchor, s.cursor)
    } else {
        (s.cursor, s.anchor)
    }
}

impl VisualSelection {
    /// The first and the last block of the selection.
    pub fn range(&self) -> (r: (usize, usize))
        ensures
            r == selected(*self),
    {
        if self.mode == VisualMode::Char || self.anchor == self.cursor {
            (self.anchor, self.anchor)
        } else if self.anchor < self.cursor {
            (self.anchor, self.cursor)
        } else {
            (self.cursor, self.anchor)
        }
    }
}

/// Where copied text goes.
#[derive(Debug, Clone, Copy, PartialEq, Eq, Structural, Default)]
pub enum YankBackend {
    #[default]
    Unavailable,
    /// The clipboard of the system.
    System,
    /// The terminal, by an escape sequence.
    Osc52,
    /// The buffer of a terminal multiplexer.
    Tmux,
}

impl YankBackend {
    /// The word for a place.
    pub fn as_str(self) -> (r: &'static str)
        ensures
            r@ == match self {
                YankBackend::Unavailable => "unavailable"@,
                YankBackend::System => "system"@,
                YankBackend::Osc52 => "osc52"@,
                YankBackend::Tmux => "tmux"@,
            },
    {
        match self {
            YankBackend::Unavailable => "unavailable",
            YankBackend::System => "system",
            YankBackend::Osc52 => "osc52",
            YankBackend::Tmux => "tmux",
        }
    }
}

/// What was copied last, and what is being selected.
#[derive(Debug, Clone, PartialEq, Eq)]
pub struct YankState {
    pub visual: Option<VisualSelection>,
    pub last: Option<String>,
    pub backend: YankBackend,
    /// A word for the user, shown once.
    pub toast: Option<String>,
}

impl Default for YankState {
    fn default() -> (r: Self)
        ensures
            r.visual is None,
            r.last is None,
            r.backend == YankBackend::Unavailable,
            r.toast is None,
    {
        YankState { visual: None, last: None, backend: YankBackend::Unavailable, toast: None }
    }
}

/// What of a block is copied.
#[derive(Debug, Clone, PartialEq, Eq)]
pub enum YankTarget {
    Code(String),
    Link(String),
    Image(String),
    ToolResult(String),
    Paragraph(String),
}

/// What of a block is copied.
pub enum TargetView {
    Code(Seq<char>),
    Link(Seq<char>),
    Image(Seq<char>),
    ToolResult(Seq<char>),
    Paragraph(Seq<char>),
}

impl View for YankTarget {
    type V = TargetView;

    open spec fn view(&self) -> TargetView {
        match *self {
            YankTarget::Code(s) => TargetView::Code(s@),
            YankTarget::Link(s) => TargetView::Link(s@),
            YankTarget::Image(s) => TargetView::Image(s@),
            YankTarget::ToolResult(s) => TargetView::ToolResult(s@),
            YankTarget::Paragraph(s) => TargetView::Paragraph(s@),
        }
    }
}

impl TargetView {
    /// The text that is copied.
    pub open spec fn content(self) -> Seq<char> {
        match self {
            TargetView::Code(s) => s,
            TargetView::Link(s) => s,
            TargetView::Image(s) => s,
            TargetView::ToolResult(s) => s,
            TargetView::Paragraph(s) => s,
        }
    }
}

impl YankTarget {
    /// The text that is copied.
    pub fn content(&self) -> (r: &str)
        ensures
            r@ == self@.content(),
    {
        match self {
            YankTarget::Code(s) => s.as_str(),
            YankTarget::Link(s) => s.as_str(),
            YankTarget::Image(s) => s.as_str(),
            YankTarget::ToolResult(s) => s.as_str(),
            YankTarget::Paragraph(s) => s.as_str(),
        }
    }
}

/// What the text of a message holds.
#[derive(Debug, Clone, PartialEq, Eq)]
pub struct MessageText {
    /// The whole text.
    pub text: String,
    /// The first block of code.
    pub code: Option<String>,
    /// The address of the first link.
    pub link: Option<String>,
}

/// What of a message is copied: its link, else its text.
pub open spec fn link_or(link: Option<Seq<char>>, text: Seq<char>) -> TargetView {
    match link {
        Some(u) => TargetView::Link(u),
        None => TargetView::Paragraph(trimmed(text)),
    }
}

/// What of a block is copied: the arguments of a tool call, the text of a tool
/// result, the name of an image, and of a message its code, its link or its
/// text, whichever there is first.
pub open spec fn target(b: BlockView, m: MessageText) -> Option<TargetView> {
    match b {
        BlockView::ToolCall { args_raw, .. } => match args_raw {
            Some(v) => Some(TargetView::Code(json_display(v))),
            None => None,
        },
        BlockView::ToolResult { content, .. } => Some(TargetView::ToolResult(content)),
        BlockView::Image { name, .. } => match name {
            Some(n) => Some(TargetView::Image(n)),
            None => Some(TargetView::Image("image"@)),
        },
        BlockView::AssistantMessage { .. } => match opt_text(m.code) {
            Some(c) => Some(TargetView::Code(c)),
            None => Some(link_or(opt_text(m.link), m.text@)),
        },
        BlockView::UserMessage { content, .. } => Some(link_or(opt_text(m.link), content)),
        _ => None,
    }
}

/// An optional target.
pub open spec fn opt_target(o: Option<YankTarget>) -> Option<TargetView> {
    match o {
        Some(t) => Some(t@),
        None => None,
    }
}

fn link_target(link: &Option<String>, text: &str) -> (r: YankTarget)
    ensures
        r@ == link_or(opt_text(*link), text@),
{
    match link {
        Some(u) => YankTarget::Link(u.clone()),
        None => YankTarget::Paragraph(trim(text)),
    }
}

/// What of a block is copied; `message` is what its text holds.
pub fn block_yank_target(block: &Block, message: &MessageText) -> (r: Option<YankTarget>)
    ensures
        opt_target(r) == target(block@, *message),
{
    match block {
        Block::ToolCall { args_raw, .. } => match args_raw {
            Some(v) => Some(YankTarget::Code(display(v))),
            None => None,
        },
        Block::ToolResult { content, .. } => Some(YankTarget::ToolResult(content.clone())),
        Block::Image { name, .. } => match name {
            Some(n) => Some(YankTarget::Image(n.clone())),
            None => Some(YankTarget::Image("image".to_owned())),
        },
        Block::AssistantMessage { .. } => match &message.code {
            Some(c) => Some(YankTarget::Code(c.clone())),
            None => Some(link_target(&message.link, message.text.as_str())),
        },
        Block::UserMessage { content, .. } => Some(link_target(&message.link, content.as_str())),
        _ => None,
    }
}

/// The text of a block; `text` is that of the message, where it is one of the
/// assistant.
pub open spec fn plain_text(b: BlockView, text: Seq<char>) -> Seq<char> {
    match b {
        BlockView::UserMessage { content, .. } => content,
        BlockView::AssistantMessage { .. } => text,
        BlockView::ToolCall { name, args_raw, .. } => match (name, args_raw) {
            (Some(n), Some(a)) => n + " "@ + json_display(a),
            (Some(n), None) => n,
            (None, Some(a)) => json_display(a),
            (None, None) => Seq::empty(),
        },
        BlockView::ToolResult { content, .. } => content,
        BlockView::Image { name, .. } => or_empty(name),
        BlockView::RequestHeader { summary, .. } => summary,
        BlockView::Compaction { summary, .. } => summary,
        BlockView::Unknown { raw, .. } => json_display(raw),
    }
}

/// The text of a block; `text` is that of the message, where it is one of the
/// assistant.
pub fn block_plain_text(block: &Block, text: &str) -> (r: String)
    ensures
        r@ == plain_text(block@, text@),
{
    match block {
        Block::UserMessage { content, .. } => content.clone(),
        Block::AssistantMessage { .. } => text.to_owned(),
        Block::ToolCall { name, args_raw, .. } => match (name, args_raw) {
            (Some(n), Some(a)) => cat3(n.as_str(), " ", display(a).as_str()),
            (Some(n), None) => n.clone(),
            (None, Some(a)) => display(a),
            (None, None) => String::new(),
        },
        Block::ToolResult { content, .. } => content.clone(),
        Block::Image { name, .. } => match name {
            Some(n) => n.clone(),
            None => String::new(),
        },
        Block::RequestHeader { summary, .. } => summary.clone(),
        Block::Compaction { summary, .. } => summary.clone(),
        Block::Unknown { raw, .. } => display(raw),
    }
}

/// The texts of the blocks from `from` to `to`.
pub open spec fn block_texts(blocks: Seq<Block>, messages: Seq<String>, from: int, to: int) -> Seq<
    Seq<char>,
> {
    Seq::new((to - from) as nat, |i: int| plain_text(blocks[from + i]@, messages[from + i]@))
}

/// What of a selection is copied: nothing where it begins behind the last
/// block.
pub open spec fn selection(blocks: Seq<Block>, messages: Seq<String>, s: VisualSelection) -> Option<
    Seq<char>,
> {
    let (start, end) = selected(s);
    if start >= blocks.len() {
        None
    } else if s.mode == VisualMode::Char {
        Some(plain_text(blocks[start as int]@, messages[start as int]@))
    } else {
        let last = if end < blocks.len() {
            end as int
        } else {
            blocks.len() - 1
        };
        Some(joined(block_texts(blocks, messages, start as int, last + 1), "\n"@))
    }
}

/// What of a selection is copied: of one block its text, of more their texts,
/// each on lines of its own. `messages` holds for each block the text of its
/// message.
pub fn selection_text(blocks: &[Block], messages: &Vec<String>, selection: &VisualSelection) -> (r:
    Option<String>)
    requires
        messages@.len() == blocks@.len(),
    ensures
        opt_text(r) == self::selection(blocks@, messages@, *selection),
{
    let (start, end) = selection.range();
    if start >= blocks.len() {
        return None;
    }
    match selection.mode {
        VisualMode::Char => Some(block_plain_text(&blocks[start], messages[start].as_str())),
        VisualMode::Line => {
            let stop: usize = if end < blocks.len() {
                end + 1
            } else {
                blocks.len()
            };
            let ghost want = block_texts(blocks@, messages@, start as int, stop as int);
            let mut parts: Vec<String> = Vec::new();
            let mut i: usize = start;
            assert(texts(parts@) =~= want.take(0));
            while i < stop
                invariant
                    start <= i <= stop <= blocks@.len(),
                    messages@.len() == blocks@.len(),
                    want == block_texts(blocks@, messages@, start as int, stop as int),
                    texts(parts@) == want.take(i - start),
                decreases stop - i,
            {
                let t = block_plain_text(&blocks[i], messages[i].as_str());
                let ghost before = texts(parts@);
                let ghost added = t@;
                parts.push(t);
                assert(texts(parts@) =~= before.push(added));
                assert(want.take(i + 1 - start) =~= want.take(i - start).push(want[i - start]));
                i = i + 1;
            }
            assert(want.take(stop - start) =~= want);
            Some(join(&parts, "\n"))
        },
    }
}

/// A selection of one block is the block it began at; one of whole blocks
/// reaches from the earlier of its ends to the later, whichever it began at.
pub proof fn law_selections_reach_from_end_to_end(s: VisualSelection)
    ensures
        s.mode == VisualMode::Char ==> selected(s) == (s.anchor, s.anchor),
        s.mode == VisualMode::Line ==> {
            let (a, b) = selected(s);
            &&& a <= b
            &&& a == s.anchor || a == s.cursor
            &&& b == s.anchor || b == s.cursor
            &&& a <= s.anchor <= b && a <= s.cursor <= b
        },
        selected(VisualSelection { anchor: s.cursor, cursor: s.anchor, mode: VisualMode::Line })
            == selected(VisualSelection { mode: VisualMode::Line, ..s }),
{
}

/// Of a selection the texts of its blocks are copied, each of them, in their
/// order and on lines of their own; of one block its text alone. Blocks behind
/// the last are not there to be copied.
pub proof fn law_selected_blocks_are_copied(
    blocks: Seq<Block>,
    messages: Seq<String>,
    s: VisualSelection,
    a: int,
    b: int,
    i: int,
)
    requires
        messages.len() == blocks.len(),
        0 <= a <= b < blocks.len(),
    ensures
        s.mode == VisualMode::Char && s.anchor == a ==> selection(blocks, messages, s) == Some(
            plain_text(blocks[a]@, messages[a]@),
        ),
        s.mode == VisualMode::Line && ((s.anchor == a && s.cursor == b) || (s.anchor == b
            && s.cursor == a)) ==> selection(blocks, messages, s) == Some(
            joined(block_texts(blocks, messages, a, b + 1), "\n"@),
        ),
        block_texts(blocks, messages, a, b + 1).len() == b + 1 - a,
        a <= i <= b ==> block_texts(blocks, messages, a, b + 1)[i - a] == plain_text(
            blocks[i]@,
            messages[i]@,
        ),
        s.anchor >= blocks.len() && s.mode == VisualMode::Char ==> selection(blocks, messages, s)
            is None,
        s.anchor >= blocks.len() && s.cursor >= blocks.len() ==> selection(blocks, messages, s)
            is None,
        s.mode == VisualMode::Line && s.anchor == a && s.cursor >= blocks.len() ==> selection(
            blocks,
            messages,
            s,
        ) == Some(joined(block_texts(blocks, messages, a, blocks.len() as int), "\n"@)),
{
}

/// What is copied of a block: a result as it is, the arguments of a call, the
/// name of an image, and of a message its code before its link and its link
/// before its text.
pub proof fn law_blocks_are_copied_by_kind(b: BlockView, m: MessageText)
    ensures
        b is ToolResult ==> target(b, m) == Some(TargetView::ToolResult(b->ToolResult_content)),
        b is ToolCall && b->args_raw is Some ==> target(b, m) == Some(
            TargetView::Code(json_display(b->args_raw->0)),
        ),
        b is ToolCall && b->args_raw is None ==> target(b, m) is None,
        b is Image && b->Image_name is Some ==> target(b, m) == Some(
            TargetView::Image(b->Image_name->0),
        ),
        b is AssistantMessage && m.code is Some ==> target(b, m) == Some(
            TargetView::Code(m.code->0@),
        ),
        b is AssistantMessage && m.code is None && m.link is Some ==> target(b, m) == Some(
            TargetView::Link(m.link->0@),
        ),
        b is AssistantMessage && m.code is None && m.link is None ==> target(b, m) == Some(
            TargetView::Paragraph(trimmed(m.text@)),
        ),
        b is UserMessage && m.link is Some ==> target(b, m) == Some(
            TargetView::Link(m.link->0@),
        ),
        b is UserMessage && m.link is None ==> target(b, m) == Some(
            TargetView::Paragraph(trimmed(b->UserMessage_content)),
        ),
        b is RequestHeader || b is Compaction || b is Unknown ==> target(b, m) is None,
{
}

/// The text of a block is what it says: the content of a message or a result,
/// name and arguments of a call, the summary of a header.
pub proof fn law_blocks_have_their_text(b: BlockView, text: Seq<char>)
    ensures
        b is UserMessage ==> plain_text(b, text) == b->UserMessage_content,
        b is AssistantMessage ==> plain_text(b, text) == text,
        b is ToolResult ==> plain_text(b, text) == b->ToolResult_content,
        b is ToolCall && b->ToolCall_name is Some && b->args_raw is Some ==> plain_text(b, text)
            == b->ToolCall_name->0 + " "@ + json_display(b->args_raw->0),
        b is ToolCall && b->ToolCall_name is Some && b->args_raw is None ==> plain_text(b, text)
            == b->ToolCall_name->0,
        b is ToolCall && b->ToolCall_name is None && b->args_raw is Some ==> plain_text(b, text)
            == json_display(b->args_raw->0),
        b is Image && b->Image_name is Some ==> plain_text(b, text) == b->Image_name->0,
        b is RequestHeader ==> plain_text(b, text) == b->RequestHeader_summary,
        b is Compaction ==> plain_text(b, text) == b->Compaction_summary,
        b is Unknown ==> plain_text(b, text) == json_display(b->raw),
{
}

/// What is copied is the text of the target, whatever its kind.
pub proof fn law_targets_hold_their_text(t: Seq<char>)
    ensures
        TargetView::Code(t).content() == t,
        TargetView::Link(t).content() == t,
        TargetView::Image(t).content() == t,
        TargetView::ToolResult(t).content() == t,
        TargetView::Paragraph(t).content() == t,
{
}

} // verus!
