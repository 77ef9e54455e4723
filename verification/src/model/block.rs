//! Transcript blocks and how an event of the session log becomes blocks.

use vstd::prelude::*;

use crate::json::{
    display, dup_opt, json_display, key_index, lemma_member_smaller, opt_json, opt_json_ref, Json, JsonView,
};
use crate::text::{
    cat3, contains, copy_opt, dec, decimal, has_infix, has_prefix, join, joined, opt_str, opt_text, same,
    starts_with, texts,
};
use crate::wire::{
    chunk_rows, ChunkData, ChunkDataView, ChunkRow, ChunkRowView, EventView, SessionSeq,
    SessionWireEvent,
};

verus! {

/// One element of a transcript window. Packed chunk rows are stored as they
/// came, never expanded into single deltas.
#[derive(Debug, PartialEq, Eq)]
pub enum Block {
    UserMessage { seq: SessionSeq, content: String, time: Option<i64> },
    AssistantMessage {
        seq: SessionSeq,
        chunks: PackedChunks,
        time: Option<i64>,
        /// Identity of the message, for feedback on it.
        message_id: Option<String>,
    },
    ToolCall {
        seq: SessionSeq,
        call_id: Option<String>,
        name: Option<String>,
        args_raw: Option<Json>,
        time: Option<i64>,
    },
    ToolResult {
        seq: SessionSeq,
        call_id: Option<String>,
        content: String,
        is_error: bool,
        time: Option<i64>,
    },
    RequestHeader { seq: SessionSeq, summary: String },
    Compaction { seq: SessionSeq, summary: String },
    /// Placeholder of an image; it keeps the identity of the attachment.
    Image {
        seq: SessionSeq,
        attachment_id: Option<String>,
        name: Option<String>,
        dims: Option<String>,
    },
    /// An event of unknown type with its payload, neither shown nor dropped.
    Unknown { seq: SessionSeq, event_type: String, raw: Json },
}

/// Packed chunk rows in arrival order.
#[derive(Debug, Default, PartialEq, Eq)]
pub struct PackedChunks {
    pub rows: Vec<ChunkRow>,
}

/// Mathematical block.
pub enum BlockView {
    UserMessage { seq: SessionSeq, content: Seq<char>, time: Option<i64> },
    AssistantMessage {
        seq: SessionSeq,
        chunks: Seq<ChunkRowView>,
        time: Option<i64>,
        message_id: Option<Seq<char>>,
    },
    ToolCall {
        seq: SessionSeq,
        call_id: Option<Seq<char>>,
        name: Option<Seq<char>>,
        args_raw: Option<JsonView>,
        time: Option<i64>,
    },
    ToolResult {
        seq: SessionSeq,
        call_id: Option<Seq<char>>,
        content: Seq<char>,
        is_error: bool,
        time: Option<i64>,
    },
    RequestHeader { seq: SessionSeq, summary: Seq<char> },
    Compaction { seq: SessionSeq, summary: Seq<char> },
    Image {
        seq: SessionSeq,
        attachment_id: Option<Seq<char>>,
        name: Option<Seq<char>>,
        dims: Option<Seq<char>>,
    },
    Unknown { seq: SessionSeq, event_type: Seq<char>, raw: JsonView },
}

impl View for Block {
    type V = BlockView;

    open spec fn view(&self) -> BlockView {
        match *self {
            Block::UserMessage { seq, content, time } => BlockView::UserMessage {
                seq,
                content: content@,
                time,
            },
            Block::AssistantMessage { seq, chunks, time, message_id } => {
                BlockView::AssistantMessage {
                    seq,
                    chunks: chunk_rows(chunks.rows@),
                    time,
                    message_id: opt_text(message_id),
                }
            },
            Block::ToolCall { seq, call_id, name, args_raw, time } => BlockView::ToolCall {
                seq,
                call_id: opt_text(call_id),
                name: opt_text(name),
                args_raw: opt_json(args_raw),
                time,
            },
            Block::ToolResult { seq, call_id, content, is_error, time } => BlockView::ToolResult {
                seq,
                call_id: opt_text(call_id),
                content: content@,
                is_error,
                time,
            },
            Block::RequestHeader { seq, summary } => BlockView::RequestHeader {
                seq,
                summary: summary@,
            },
            Block::Compaction { seq, summary } => BlockView::Compaction { seq, summary: summary@ },
            Block::Image { seq, attachment_id, name, dims } => BlockView::Image {
                seq,
                attachment_id: opt_text(attachment_id),
                name: opt_text(name),
                dims: opt_text(dims),
            },
            Block::Unknown { seq, event_type, raw } => BlockView::Unknown {
                seq,
                event_type: event_type@,
                raw: raw@,
            },
        }
    }
}

impl Clone for PackedChunks {
    fn clone(&self) -> (r: Self)
        ensures
            chunk_rows(r.rows@) == chunk_rows(self.rows@),
    {
        let mut rows: Vec<ChunkRow> = Vec::new();
        let mut i: usize = 0;
        while i < self.rows.len()
            invariant
                i <= self.rows@.len(),
                rows@.len() == i,
                forall|k: int| 0 <= k < i ==> (#[trigger] rows@[k])@ == self.rows@[k]@,
            decreases self.rows@.len() - i,
        {
            rows.push(self.rows[i].clone());
            i = i + 1;
        }
        assert(chunk_rows(rows@) =~= chunk_rows(self.rows@));
        PackedChunks { rows }
    }
}

impl Clone for Block {
    fn clone(&self) -> (r: Self)
        ensures
            r@ == self@,
    {
        match self {
            Block::UserMessage { seq, content, time } => Block::UserMessage {
                seq: *seq,
                content: content.clone(),
                time: *time,
            },
            Block::AssistantMessage { seq, chunks, time, message_id } => Block::AssistantMessage {
                seq: *seq,
                chunks: chunks.clone(),
                time: *time,
                message_id: copy_opt(message_id),
            },
            Block::ToolCall { seq, call_id, name, args_raw, time } => Block::ToolCall {
                seq: *seq,
                call_id: copy_opt(call_id),
                name: copy_opt(name),
                args_raw: dup_opt(args_raw),
                time: *time,
            },
            Block::ToolResult { seq, call_id, content, is_error, time } => Block::ToolResult {
                seq: *seq,
                call_id: copy_opt(call_id),
                content: content.clone(),
                is_error: *is_error,
                time: *time,
            },
            Block::RequestHeader { seq, summary } => Block::RequestHeader {
                seq: *seq,
                summary: summary.clone(),
            },
            Block::Compaction { seq, summary } => Block::Compaction {
                seq: *seq,
                summary: summary.clone(),
            },
            Block::Image { seq, attachment_id, name, dims } => Block::Image {
                seq: *seq,
                attachment_id: copy_opt(attachment_id),
                name: copy_opt(name),
                dims: copy_opt(dims),
            },
            Block::Unknown { seq, event_type, raw } => Block::Unknown {
                seq: *seq,
                event_type: event_type.clone(),
                raw: raw.dup(),
            },
        }
    }
}

/// The views of a list of blocks.
pub open spec fn block_views(blocks: Seq<Block>) -> Seq<BlockView> {
    blocks.map_values(|b: Block| b@)
}

impl BlockView {
    /// Log position of the event that the block came from.
    pub open spec fn seq(self) -> SessionSeq {
        match self {
            BlockView::UserMessage { seq, .. } => seq,
            BlockView::AssistantMessage { seq, .. } => seq,
            BlockView::ToolCall { seq, .. } => seq,
            BlockView::ToolResult { seq, .. } => seq,
            BlockView::RequestHeader { seq, .. } => seq,
            BlockView::Compaction { seq, .. } => seq,
            BlockView::Image { seq, .. } => seq,
            BlockView::Unknown { seq, .. } => seq,
        }
    }
}

impl Block {
    /// Log position of the event that the block came from.
    pub fn seq(&self) -> (r: SessionSeq)
        ensures
            r == self@.seq(),
    {
        match self {
            Block::UserMessage { seq, .. } => *seq,
            Block::AssistantMessage { seq, .. } => *seq,
            Block::ToolCall { seq, .. } => *seq,
            Block::ToolResult { seq, .. } => *seq,
            Block::RequestHeader { seq, .. } => *seq,
            Block::Compaction { seq, .. } => *seq,
            Block::Image { seq, .. } => *seq,
            Block::Unknown { seq, .. } => *seq,
        }
    }

    /// Whether the block is a message of the assistant.
    pub fn is_assistant(&self) -> (r: bool)
        ensures
            r == (self@ is AssistantMessage),
    {
        match self {
            Block::AssistantMessage { .. } => true,
            _ => false,
        }
    }
}

/// The first of two optional texts that is there.
pub open spec fn first_of(a: Option<Seq<char>>, b: Option<Seq<char>>) -> Option<Seq<char>> {
    if a is Some {
        a
    } else {
        b
    }
}

/// An optional text, empty where there is none.
pub open spec fn or_empty(o: Option<Seq<char>>) -> Seq<char> {
    match o {
        Some(t) => t,
        None => Seq::empty(),
    }
}

/// The member under `a`, else the one under `b`.
pub open spec fn either_member(v: JsonView, a: Seq<char>, b: Seq<char>) -> Option<JsonView> {
    match v.get(a) {
        Some(x) => Some(x),
        None => v.get(b),
    }
}

/// The text under `type`, or under `kind` where there is no `type`.
pub open spec fn kind_of(v: JsonView) -> Option<Seq<char>> {
    match either_member(v, "type"@, "kind"@) {
        Some(k) => k.as_str(),
        None => None,
    }
}

/// The texts of the `text` parts below `v`, in order: a part is an object of
/// kind `text`; parts are looked for in arrays and under `content`, `parts`,
/// `blocks` and `children`.
pub open spec fn text_parts(v: JsonView) -> Seq<Seq<char>>
    decreases v, 0nat,
{
    match v {
        JsonView::Object(entries) => if kind_of(v) == Some("text"@) {
            match v.str_at("text"@) {
                Some(t) => seq![t],
                None => Seq::empty(),
            }
        } else {
            let c = key_index(entries, "content"@);
            let p = key_index(entries, "parts"@);
            let b = key_index(entries, "blocks"@);
            let h = key_index(entries, "children"@);
            (if 0 <= c < entries.len() {
                text_parts(entries[c].1)
            } else {
                Seq::empty()
            }) + (if 0 <= p < entries.len() {
                text_parts(entries[p].1)
            } else {
                Seq::empty()
            }) + (if 0 <= b < entries.len() {
                text_parts(entries[b].1)
            } else {
                Seq::empty()
            }) + (if 0 <= h < entries.len() {
                text_parts(entries[h].1)
            } else {
                Seq::empty()
            })
        },
        JsonView::Array(items) => text_parts_upto(items, items.len()),
        _ => Seq::empty(),
    }
}

/// The texts of the parts below the first `n` items.
pub open spec fn text_parts_upto(items: Seq<JsonView>, n: nat) -> Seq<Seq<char>>
    decreases items, n,
{
    if n == 0 || n > items.len() {
        Seq::empty()
    } else {
        text_parts_upto(items, (n - 1) as nat) + text_parts(items[n - 1])
    }
}

/// The `text` parts below `v` joined by blanks, where there are any.
pub open spec fn nested_text_of(v: JsonView) -> Option<Seq<char>> {
    if text_parts(v).len() == 0 {
        None
    } else {
        Some(joined(text_parts(v), " "@))
    }
}

/// Whether `v` names an attachment.
pub open spec fn names_attachment(v: JsonView) -> bool {
    v.get("attachmentId"@) is Some || v.get("attachment_id"@) is Some
}

/// The dimensions under `dims`, else `<width>x<height>` with zero for what is
/// missing.
pub open spec fn dims_of(v: JsonView) -> Seq<char> {
    match v.str_at("dims"@) {
        Some(d) => d,
        None => decimal(or_zero(v.u64_at("width"@)) as nat) + "x"@ + decimal(
            or_zero(v.u64_at("height"@)) as nat,
        ),
    }
}

/// An optional number, zero where there is none.
pub open spec fn or_zero(o: Option<u64>) -> u64 {
    match o {
        Some(n) => n,
        None => 0,
    }
}

/// The image block of an attachment object.
pub open spec fn image_block(v: JsonView, seq: SessionSeq) -> BlockView {
    BlockView::Image {
        seq,
        attachment_id: match either_member(v, "attachmentId"@, "attachment_id"@) {
            Some(a) => a.as_str(),
            None => None,
        },
        name: v.str_at("name"@),
        dims: Some(dims_of(v)),
    }
}

/// Whether the object `v` is a reference to an image.
pub open spec fn is_image_ref(v: JsonView) -> bool {
    (kind_of(v) == Some("image"@) || kind_of(v) == Some("attachment"@)) && names_attachment(v)
}

/// The image blocks of the references below `v`, in order.
pub open spec fn image_blocks(v: JsonView, seq: SessionSeq) -> Seq<BlockView>
    decreases v, 0nat,
{
    match v {
        JsonView::Object(entries) => if is_image_ref(v) {
            seq![image_block(v, seq)]
        } else {
            let c = key_index(entries, "content"@);
            let p = key_index(entries, "parts"@);
            let b = key_index(entries, "blocks"@);
            let h = key_index(entries, "children"@);
            (if 0 <= c < entries.len() {
                image_blocks(entries[c].1, seq)
            } else {
                Seq::empty()
            }) + (if 0 <= p < entries.len() {
                image_blocks(entries[p].1, seq)
            } else {
                Seq::empty()
            }) + (if 0 <= b < entries.len() {
                image_blocks(entries[b].1, seq)
            } else {
                Seq::empty()
            }) + (if 0 <= h < entries.len() {
                image_blocks(entries[h].1, seq)
            } else {
                Seq::empty()
            })
        },
        JsonView::Array(items) => image_blocks_upto(items, items.len(), seq),
        _ => Seq::empty(),
    }
}

/// The image blocks of the references below the first `n` items.
pub open spec fn image_blocks_upto(items: Seq<JsonView>, n: nat, seq: SessionSeq) -> Seq<BlockView>
    decreases items, n,
{
    if n == 0 || n > items.len() {
        Seq::empty()
    } else {
        image_blocks_upto(items, (n - 1) as nat, seq) + image_blocks(items[n - 1], seq)
    }
}

/// The text of a scalar member `content`, as JSON.
pub open spec fn scalar_content(v: JsonView) -> Option<Seq<char>> {
    match v.get("content"@) {
        Some(c) => if c is Array || c is Object {
            None
        } else {
            Some(json_display(c))
        },
        None => None,
    }
}

/// The member `content` as JSON text.
pub open spec fn any_content(v: JsonView) -> Option<Seq<char>> {
    match v.get("content"@) {
        Some(c) => Some(json_display(c)),
        None => None,
    }
}

/// The block of an event, where `fallback_user` and `fallback_result` stand in
/// for a missing text under `content`, `chunks` are the rows of an assistant
/// message, and `images` says whether image events are told apart.
pub open spec fn plain_block(
    t: Seq<char>,
    v: JsonView,
    time: Option<i64>,
    seq: SessionSeq,
    fallback_user: Option<Seq<char>>,
    fallback_result: Option<Seq<char>>,
    chunks: Seq<ChunkRowView>,
    images: bool,
) -> BlockView {
    if has_prefix(t, "user/"@) {
        BlockView::UserMessage {
            seq,
            content: or_empty(first_of(v.text_at("content"@), fallback_user)),
            time,
        }
    } else if has_prefix(t, "assistant/"@) {
        BlockView::AssistantMessage { seq, chunks, time, message_id: v.text_at("id"@) }
    } else if has_prefix(t, "tool/call"@) {
        BlockView::ToolCall {
            seq,
            call_id: first_of(v.text_at("id"@), v.text_at("callId"@)),
            name: v.text_at("name"@),
            args_raw: v.get("args"@),
            time,
        }
    } else if has_prefix(t, "tool/result"@) {
        BlockView::ToolResult {
            seq,
            call_id: first_of(v.text_at("id"@), v.text_at("callId"@)),
            content: or_empty(first_of(v.text_at("content"@), fallback_result)),
            is_error: v.bool_at("isError"@) == Some(true),
            time,
        }
    } else if has_infix(t, "request"@) && has_infix(t, "header"@) {
        BlockView::RequestHeader { seq, summary: or_empty(v.text_at("summary"@)) }
    } else if has_infix(t, "compaction"@) {
        BlockView::Compaction { seq, summary: or_empty(v.text_at("summary"@)) }
    } else if images && (has_infix(t, "image"@) || has_infix(t, "attachment"@)) {
        BlockView::Image {
            seq,
            attachment_id: first_of(v.text_at("attachmentId"@), v.text_at("attachment_id"@)),
            name: v.text_at("name"@),
            dims: Some(dims_of(v)),
        }
    } else {
        BlockView::Unknown { seq, event_type: t, raw: v }
    }
}

/// The rows that carry the nested text of an assistant message with images.
pub open spec fn nested_rows(v: JsonView) -> Seq<ChunkRowView> {
    match nested_text_of(v) {
        Some(t) => seq![
            ChunkRowView::TextChunks(
                ChunkDataView { turn: None, step: None, index: None, texts: seq![t] },
            ),
        ],
        None => Seq::empty(),
    }
}

/// The blocks of an event at `seq`. A payload that names an attachment is one
/// image block. A payload with image references below it gives the block of
/// the event, with the text found beside the images, and one image block for
/// each reference. Any other event gives one block.
pub open spec fn event_blocks(e: EventView, seq: SessionSeq) -> Seq<BlockView> {
    let v = e.payload();
    let t = e.event_type;
    let images = image_blocks(v, seq);
    if names_attachment(v) {
        seq![image_block(v, seq)]
    } else if images.len() > 0 {
        let nested = nested_text_of(v);
        seq![plain_block(t, v, e.time, seq, nested, nested, nested_rows(v), false)] + images
    } else {
        seq![
            plain_block(
                t,
                v,
                e.time,
                seq,
                scalar_content(v),
                any_content(v),
                Seq::empty(),
                true,
            ),
        ]
    }
}

/// Whether every block of `blocks` is at `seq`.
pub open spec fn all_at(blocks: Seq<BlockView>, seq: SessionSeq) -> bool {
    forall|i: int| 0 <= i < blocks.len() ==> (#[trigger] blocks[i]).seq() == seq
}

proof fn lemma_all_at_add(a: Seq<BlockView>, b: Seq<BlockView>, seq: SessionSeq)
    requires
        all_at(a, seq),
        all_at(b, seq),
    ensures
        all_at(a + b, seq),
{
    assert forall|i: int| 0 <= i < (a + b).len() implies (#[trigger] (a + b)[i]).seq() == seq by {
        if i < a.len() {
            assert((a + b)[i] == a[i]);
        } else {
            assert((a + b)[i] == b[i - a.len()]);
        }
    }
}

/// The image blocks below the member of `entries` at `k`.
spec fn image_blocks_at(
    entries: Seq<(Seq<char>, JsonView)>,
    k: int,
    seq: SessionSeq,
) -> Seq<BlockView> {
    if 0 <= k < entries.len() {
        image_blocks(entries[k].1, seq)
    } else {
        Seq::empty()
    }
}

/// Every image block of an event is at the position of the event.
proof fn lemma_image_blocks_seq(v: JsonView, seq: SessionSeq)
    ensures
        all_at(image_blocks(v, seq), seq),
    decreases v, 0nat,
{
    match v {
        JsonView::Object(entries) => {
            if !is_image_ref(v) {
                let c = key_index(entries, "content"@);
                let p = key_index(entries, "parts"@);
                let b = key_index(entries, "blocks"@);
                let h = key_index(entries, "children"@);
                if 0 <= c < entries.len() {
                    lemma_image_blocks_seq(entries[c].1, seq);
                }
                if 0 <= p < entries.len() {
                    lemma_image_blocks_seq(entries[p].1, seq);
                }
                if 0 <= b < entries.len() {
                    lemma_image_blocks_seq(entries[b].1, seq);
                }
                if 0 <= h < entries.len() {
                    lemma_image_blocks_seq(entries[h].1, seq);
                }
                let (bc, bp) = (image_blocks_at(entries, c, seq), image_blocks_at(entries, p, seq));
                let (bb, bh) = (image_blocks_at(entries, b, seq), image_blocks_at(entries, h, seq));
                lemma_all_at_add(bc, bp, seq);
                lemma_all_at_add(bc + bp, bb, seq);
                lemma_all_at_add(bc + bp + bb, bh, seq);
                assert(image_blocks(v, seq) == bc + bp + bb + bh);
            }
        },
        JsonView::Array(items) => {
            lemma_image_blocks_upto_seq(items, items.len(), seq);
        },
        _ => {},
    }
}

proof fn lemma_image_blocks_upto_seq(items: Seq<JsonView>, n: nat, seq: SessionSeq)
    ensures
        all_at(image_blocks_upto(items, n, seq), seq),
    decreases items, n,
{
    if n == 0 || n > items.len() {
    } else {
        lemma_image_blocks_upto_seq(items, (n - 1) as nat, seq);
        lemma_image_blocks_seq(items[n - 1], seq);
        lemma_all_at_add(
            image_blocks_upto(items, (n - 1) as nat, seq),
            image_blocks(items[n - 1], seq),
            seq,
        );
    }
}

/// An event gives at least one block, and each block is at its position.
pub proof fn lemma_event_blocks(e: EventView, seq: SessionSeq)
    ensures
        event_blocks(e, seq).len() > 0,
        all_at(event_blocks(e, seq), seq),
{
    let v = e.payload();
    let images = image_blocks(v, seq);
    lemma_image_blocks_seq(v, seq);
    if !names_attachment(v) && images.len() > 0 {
        let nested = nested_text_of(v);
        let host = seq![
            plain_block(e.event_type, v, e.time, seq, nested, nested, nested_rows(v), false),
        ];
        lemma_all_at_add(host, images, seq);
    }
}

/// The member under `a`, else the one under `b`.
fn either<'a>(v: &'a Json, a: &str, b: &str) -> (r: Option<&'a Json>)
    ensures
        opt_json_ref(r) == either_member(v@, a@, b@),
{
    match v.get(a) {
        Some(x) => Some(x),
        None => v.get(b),
    }
}

/// The text under `type`, or under `kind` where there is no `type`.
fn kind<'a>(v: &'a Json) -> (r: Option<&'a str>)
    ensures
        opt_str(r) == kind_of(v@),
{
    match either(v, "type", "kind") {
        Some(k) => k.as_str(),
        None => None,
    }
}

/// Whether `o` holds the text `t`.
fn is_text(o: Option<&str>, t: &str) -> (r: bool)
    ensures
        r == (opt_str(o) == Some(t@)),
{
    match o {
        Some(s) => same(s, t),
        None => false,
    }
}

/// The texts of the parts below the member `key`.
spec fn member_texts(v: JsonView, key: Seq<char>) -> Seq<Seq<char>> {
    match v.get(key) {
        Some(m) => text_parts(m),
        None => Seq::empty(),
    }
}

/// The image blocks below the member `key`.
spec fn member_images(v: JsonView, key: Seq<char>, seq: SessionSeq) -> Seq<BlockView> {
    match v.get(key) {
        Some(m) => image_blocks(m, seq),
        None => Seq::empty(),
    }
}

/// Adding four sequences one by one or all at once is the same.
proof fn lemma_sum4<T>(s: Seq<T>, a: Seq<T>, b: Seq<T>, c: Seq<T>, d: Seq<T>)
    ensures
        s + a + b + c + d == s + (a + b + c + d),
{
    assert(s + a + b + c + d =~= s + (a + b + c + d));
}

/// Appends the texts of the parts below the member `key` to `out`.
fn collect_member_texts(value: &Json, key: &str, out: &mut Vec<String>)
    ensures
        texts(final(out)@) == texts(old(out)@) + member_texts(value@, key@),
    decreases value@, 1nat,
{
    if let Some(nested) = value.get(key) {
        proof {
            lemma_member_smaller(value@, key@);
        }
        collect_text_parts(nested, out);
    }
    assert(texts(out@) =~= texts(out@) + Seq::<Seq<char>>::empty());
}

/// Appends the texts of the `text` parts below `value` to `out`.
fn collect_text_parts(value: &Json, out: &mut Vec<String>)
    ensures
        texts(final(out)@) == texts(old(out)@) + text_parts(value@),
    decreases value@, 2nat,
{
    let ghost before = texts(out@);
    match value {
        Json::Object(_) => {
            if is_text(kind(value), "text") {
                if let Some(t) = value.str_at("text") {
                    out.push(t.to_owned());
                }
                assert(texts(out@) =~= before + text_parts(value@));
            } else {
                collect_member_texts(value, "content", out);
                collect_member_texts(value, "parts", out);
                collect_member_texts(value, "blocks", out);
                collect_member_texts(value, "children", out);
                proof {
                    lemma_sum4(
                        before,
                        member_texts(value@, "content"@),
                        member_texts(value@, "parts"@),
                        member_texts(value@, "blocks"@),
                        member_texts(value@, "children"@),
                    );
                }
            }
        },
        Json::Array(items) => {
            let ghost views = value@->Array_0;
            let mut i: usize = 0;
            assert(texts(out@) =~= before + text_parts_upto(views, 0));
            while i < items.len()
                invariant
                    i <= items@.len(),
                    *value == Json::Array(*items),
                    views == value@->Array_0,
                    views.len() == items@.len(),
                    texts(out@) == before + text_parts_upto(views, i as nat),
                decreases items@.len() - i,
            {
                proof {
                    assert(decreases_to!(value@ => views));
                    assert(decreases_to!(views => views[i as int]));
                }
                collect_text_parts(&items[i], out);
                assert(texts(out@) =~= before + text_parts_upto(views, (i + 1) as nat));
                i = i + 1;
            }
        },
        _ => {
            assert(texts(out@) =~= before + text_parts(value@));
        },
    }
}

/// The `text` parts below `data` joined by blanks, where there are any.
fn nested_text(data: &Json) -> (r: Option<String>)
    ensures
        opt_text(r) == nested_text_of(data@),
{
    let mut parts: Vec<String> = Vec::new();
    collect_text_parts(data, &mut parts);
    assert(texts(parts@) =~= text_parts(data@));
    if parts.is_empty() {
        None
    } else {
        Some(join(&parts, " "))
    }
}

/// Whether `v` names an attachment.
fn has_attachment(v: &Json) -> (r: bool)
    ensures
        r == names_attachment(v@),
{
    v.get("attachmentId").is_some() || v.get("attachment_id").is_some()
}

/// The dimensions under `dims`, else `<width>x<height>`.
fn dims_text(v: &Json) -> (r: String)
    ensures
        r@ == dims_of(v@),
{
    match v.string_at("dims") {
        Some(d) => d,
        None => {
            let width: u64 = match v.u64_at("width") {
                Some(n) => n,
                None => 0,
            };
            let height: u64 = match v.u64_at("height") {
                Some(n) => n,
                None => 0,
            };
            let w = dec(width);
            let h = dec(height);
            cat3(w.as_str(), "x", h.as_str())
        },
    }
}

/// The image block of an attachment object.
fn image_block_from(image: &Json, seq: SessionSeq) -> (r: Block)
    ensures
        r@ == image_block(image@, seq),
{
    let attachment_id = match either(image, "attachmentId", "attachment_id") {
        Some(a) => match a.as_str() {
            Some(t) => Some(t.to_owned()),
            None => None,
        },
        None => None,
    };
    Block::Image {
        seq,
        attachment_id,
        name: image.string_at("name"),
        dims: Some(dims_text(image)),
    }
}

/// Appends the image blocks below the member `key` to `out`.
fn collect_member_images(value: &Json, key: &str, seq: SessionSeq, out: &mut Vec<Block>)
    ensures
        block_views(final(out)@) == block_views(old(out)@) + member_images(value@, key@, seq),
    decreases value@, 1nat,
{
    if let Some(nested) = value.get(key) {
        proof {
            lemma_member_smaller(value@, key@);
        }
        collect_images(nested, seq, out);
    }
    assert(block_views(out@) =~= block_views(out@) + Seq::<BlockView>::empty());
}

/// Appends the image blocks of the references below `value` to `out`, in order.
fn collect_images(value: &Json, seq: SessionSeq, out: &mut Vec<Block>)
    ensures
        block_views(final(out)@) == block_views(old(out)@) + image_blocks(value@, seq),
    decreases value@, 2nat,
{
    let ghost before = block_views(out@);
    match value {
        Json::Object(_) => {
            let k = kind(value);
            if (is_text(k, "image") || is_text(k, "attachment")) && has_attachment(value) {
                out.push(image_block_from(value, seq));
                assert(block_views(out@) =~= before + image_blocks(value@, seq));
            } else {
                collect_member_images(value, "content", seq, out);
                collect_member_images(value, "parts", seq, out);
                collect_member_images(value, "blocks", seq, out);
                collect_member_images(value, "children", seq, out);
                proof {
                    lemma_sum4(
                        before,
                        member_images(value@, "content"@, seq),
                        member_images(value@, "parts"@, seq),
                        member_images(value@, "blocks"@, seq),
                        member_images(value@, "children"@, seq),
                    );
                }
            }
        },
        Json::Array(items) => {
            let ghost views = value@->Array_0;
            let mut i: usize = 0;
            assert(block_views(out@) =~= before + image_blocks_upto(views, 0, seq));
            while i < items.len()
                invariant
                    i <= items@.len(),
                    *value == Json::Array(*items),
                    views == value@->Array_0,
                    views.len() == items@.len(),
                    block_views(out@) == before + image_blocks_upto(views, i as nat, seq),
                decreases items@.len() - i,
            {
                proof {
                    assert(decreases_to!(value@ => views));
                    assert(decreases_to!(views => views[i as int]));
                }
                collect_images(&items[i], seq, out);
                assert(block_views(out@) =~= before + image_blocks_upto(
                    views,
                    (i + 1) as nat,
                    seq,
                ));
                i = i + 1;
            }
        },
        _ => {
            assert(block_views(out@) =~= before + image_blocks(value@, seq));
        },
    }
}

/// The first of two optional texts that is there.
fn first(a: Option<String>, b: Option<String>) -> (r: Option<String>)
    ensures
        opt_text(r) == first_of(opt_text(a), opt_text(b)),
{
    match a {
        Some(t) => Some(t),
        None => b,
    }
}

/// An optional text, empty where there is none.
fn unwrap_text(o: Option<String>) -> (r: String)
    ensures
        r@ == or_empty(opt_text(o)),
{
    match o {
        Some(t) => t,
        None => String::new(),
    }
}

/// The member `content` as JSON text; `scalar` leaves arrays and objects out.
fn content_text(v: &Json, scalar: bool) -> (r: Option<String>)
    ensures
        opt_text(r) == if scalar {
            scalar_content(v@)
        } else {
            any_content(v@)
        },
{
    match v.get("content") {
        Some(c) => {
            let compound = match c {
                Json::Array(_) => true,
                Json::Object(_) => true,
                _ => false,
            };
            if scalar && compound {
                None
            } else {
                Some(display(c))
            }
        },
        None => None,
    }
}

/// The block of an event, with the fallbacks of `plain_block`.
pub fn build_block(
    t: &str,
    data: &Json,
    time: Option<i64>,
    seq: SessionSeq,
    fallback_user: Option<String>,
    fallback_result: Option<String>,
    chunks: PackedChunks,
    images: bool,
) -> (r: Block)
    ensures
        r@ == plain_block(
            t@,
            data@,
            time,
            seq,
            opt_text(fallback_user),
            opt_text(fallback_result),
            chunk_rows(chunks.rows@),
            images,
        ),
{
    if starts_with(t, "user/") {
        Block::UserMessage {
            seq,
            content: unwrap_text(first(data.text_at("content"), fallback_user)),
            time,
        }
    } else if starts_with(t, "assistant/") {
        Block::AssistantMessage { seq, chunks, time, message_id: data.text_at("id") }
    } else if starts_with(t, "tool/call") {
        Block::ToolCall {
            seq,
            call_id: first(data.text_at("id"), data.text_at("callId")),
            name: data.text_at("name"),
            args_raw: match data.get("args") {
                Some(a) => Some(a.dup()),
                None => None,
            },
            time,
        }
    } else if starts_with(t, "tool/result") {
        Block::ToolResult {
            seq,
            call_id: first(data.text_at("id"), data.text_at("callId")),
            content: unwrap_text(first(data.text_at("content"), fallback_result)),
            is_error: match data.bool_at("isError") {
                Some(b) => b,
                None => false,
            },
            time,
        }
    } else if contains(t, "request") && contains(t, "header") {
        Block::RequestHeader { seq, summary: unwrap_text(data.text_at("summary")) }
    } else if contains(t, "compaction") {
        Block::Compaction { seq, summary: unwrap_text(data.text_at("summary")) }
    } else if images && (contains(t, "image") || contains(t, "attachment")) {
        Block::Image {
            seq,
            attachment_id: first(data.text_at("attachmentId"), data.text_at("attachment_id")),
            name: data.text_at("name"),
            dims: Some(dims_text(data)),
        }
    } else {
        Block::Unknown { seq, event_type: t.to_owned(), raw: data.dup() }
    }
}

/// The block of an event that carries image references: text and state around
/// the images are kept.
fn host_block(t: &str, data: &Json, time: Option<i64>, seq: SessionSeq) -> (r: Block)
    ensures
        r@ == plain_block(
            t@,
            data@,
            time,
            seq,
            nested_text_of(data@),
            nested_text_of(data@),
            nested_rows(data@),
            false,
        ),
{
    let mut rows: Vec<ChunkRow> = Vec::new();
    if let Some(text) = nested_text(data) {
        let mut row_texts: Vec<String> = Vec::new();
        row_texts.push(text);
        let row = ChunkRow::TextChunks(
            ChunkData { turn: None, step: None, index: None, texts: row_texts },
        );
        assert(texts(row_texts@) =~= seq![text@]);
        rows.push(row);
    }
    assert(chunk_rows(rows@) =~= nested_rows(data@));
    let chunks = PackedChunks { rows };
    build_block(t, data, time, seq, nested_text(data), nested_text(data), chunks, false)
}

/// The blocks of an event at `seq`.
pub fn blocks_from_event(ev: &SessionWireEvent, seq: SessionSeq) -> (r: Vec<Block>)
    ensures
        block_views(r@) == event_blocks(ev@, seq),
{
    let null = Json::Null;
    let data: &Json = match &ev.data {
        Some(d) => d,
        None => &null,
    };
    assert(data@ == ev@.payload());
    let mut out: Vec<Block> = Vec::new();
    if has_attachment(data) {
        out.push(image_block_from(data, seq));
        assert(block_views(out@) =~= event_blocks(ev@, seq));
        return out;
    }
    let mut images: Vec<Block> = Vec::new();
    collect_images(data, seq, &mut images);
    assert(block_views(images@) =~= image_blocks(data@, seq));
    if !images.is_empty() {
        out.push(host_block(ev.event_type.as_str(), data, ev.time, seq));
        out.append(&mut images);
        assert(block_views(out@) =~= event_blocks(ev@, seq));
        return out;
    }
    let chunks = PackedChunks { rows: Vec::new() };
    assert(chunk_rows(chunks.rows@) =~= Seq::<ChunkRowView>::empty());
    out.push(
        build_block(
            ev.event_type.as_str(),
            data,
            ev.time,
            seq,
            content_text(data, true),
            content_text(data, false),
            chunks,
            true,
        ),
    );
    assert(block_views(out@) =~= event_blocks(ev@, seq));
    out
}

} // verus!
