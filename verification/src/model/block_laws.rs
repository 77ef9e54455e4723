//! Laws of the blocks that events give.

use vstd::prelude::*;

use crate::json::JsonView;
use crate::model::block::{
    event_blocks, image_blocks, image_blocks_upto, kind_of, nested_text_of, text_parts,
    text_parts_upto,
};
use crate::text::{has_prefix, joined};
use crate::text_laws::law_parts_of_texts;
use crate::wire::{EventView, SessionSeq};

verus! {

/// The block of an event is what its type says, at its position and with its
/// time: the message of the user or of the assistant, the call of a tool or
/// its result, with what the payload says of them.
pub proof fn law_block_is_what_its_type_says(e: EventView, seq: SessionSeq)
    requires
        e.payload().get("attachmentId"@) is None,
        e.payload().get("attachment_id"@) is None,
    ensures
        ({
            let b = event_blocks(e, seq)[0];
            let v = e.payload();
            let t = e.event_type;
            &&& b.seq() == seq
            &&& has_prefix(t, "user/"@) ==> b is UserMessage && b->UserMessage_time == e.time && (
            v.text_at("content"@) is Some ==> b->UserMessage_content == v.text_at("content"@)->0)
            &&& has_prefix(t, "assistant/"@) ==> b is AssistantMessage
                && b->AssistantMessage_time == e.time && b->AssistantMessage_message_id
                == v.text_at("id"@)
            &&& has_prefix(t, "tool/call"@) ==> b is ToolCall && b->ToolCall_time == e.time
                && b->ToolCall_name == v.text_at("name"@) && b->args_raw == v.get("args"@) && (
            v.text_at("id"@) is Some ==> b->ToolCall_call_id == v.text_at("id"@)) && (v.text_at(
                "id"@,
            ) is None ==> b->ToolCall_call_id == v.text_at("callId"@))
            &&& has_prefix(t, "tool/result"@) ==> b is ToolResult && b->ToolResult_time == e.time
                && (b->is_error <==> v.bool_at("isError"@) == Some(true)) && (v.text_at(
                "content"@,
            ) is Some ==> b->ToolResult_content == v.text_at("content"@)->0) && (v.text_at("id"@)
                is Some ==> b->ToolResult_call_id == v.text_at("id"@)) && (v.text_at("id"@)
                is None ==> b->ToolResult_call_id == v.text_at("callId"@))
            &&& b is Unknown ==> b->event_type == t && b->raw == v
        }),
{
    let t = e.event_type;
    reveal_strlit("user/");
    reveal_strlit("assistant/");
    reveal_strlit("tool/call");
    reveal_strlit("tool/result");
    law_parts_of_texts(t, "user/"@, t, t);
    law_parts_of_texts(t, "assistant/"@, t, t);
    law_parts_of_texts(t, "tool/call"@, t, t);
    law_parts_of_texts(t, "tool/result"@, t, t);
    assert("user/"@[0] == 'u' && "assistant/"@[0] == 'a' && "tool/call"@[0] == 't'
        && "tool/result"@[0] == 't' && "tool/call"@[5] == 'c' && "tool/result"@[5] == 'r');
    assert(event_blocks(e, seq).len() > 0);
}

/// A payload that names an attachment is one image with that name, and no
/// other block.
pub proof fn law_attachment_is_one_image(e: EventView, seq: SessionSeq)
    requires
        e.payload().get("attachmentId"@) is Some,
    ensures
        ({
            let b = event_blocks(e, seq)[0];
            &&& event_blocks(e, seq).len() == 1
            &&& b is Image
            &&& b->Image_seq == seq
            &&& b->attachment_id == e.payload().get("attachmentId"@)->0.as_str()
            &&& b->Image_name == e.payload().str_at("name"@)
        }),
{
}

/// Beside the block of an event stand the images that its payload refers to,
/// and nothing else; without images the block stands alone.
pub proof fn law_images_follow_their_event(e: EventView, seq: SessionSeq, i: int)
    requires
        e.payload().get("attachmentId"@) is None,
        e.payload().get("attachment_id"@) is None,
    ensures
        event_blocks(e, seq).len() == 1 + image_blocks(e.payload(), seq).len(),
        0 <= i < image_blocks(e.payload(), seq).len() ==> event_blocks(e, seq)[i + 1]
            == image_blocks(e.payload(), seq)[i],
{
}

proof fn lemma_upto_more(items: Seq<JsonView>, more: JsonView, n: nat, seq: SessionSeq)
    requires
        n <= items.len(),
    ensures
        image_blocks_upto(items.push(more), n, seq) == image_blocks_upto(items, n, seq),
        text_parts_upto(items.push(more), n) == text_parts_upto(items, n),
    decreases n,
{
    if n > 0 {
        lemma_upto_more(items, more, (n - 1) as nat, seq);
        assert(items.push(more)[n - 1] == items[n - 1]);
    }
}

/// The images and texts of a list are those of its items, one after the other.
pub proof fn law_lists_give_the_parts_of_their_items(
    items: Seq<JsonView>,
    more: JsonView,
    seq: SessionSeq,
)
    ensures
        image_blocks(JsonView::Array(Seq::empty()), seq).len() == 0,
        text_parts(JsonView::Array(Seq::empty())).len() == 0,
        image_blocks(JsonView::Array(items.push(more)), seq) == image_blocks(
            JsonView::Array(items),
            seq,
        ) + image_blocks(more, seq),
        text_parts(JsonView::Array(items.push(more))) == text_parts(JsonView::Array(items))
            + text_parts(more),
{
    lemma_upto_more(items, more, items.len(), seq);
    assert(image_blocks_upto(Seq::empty(), 0, seq).len() == 0);
    assert(text_parts_upto(Seq::empty(), 0).len() == 0);
    let all = items.push(more);
    assert(all[all.len() - 1] == more);
    assert(text_parts_upto(all, all.len()) == text_parts_upto(all, items.len()) + text_parts(
        more,
    ));
    assert(image_blocks_upto(all, all.len(), seq) == image_blocks_upto(all, items.len(), seq)
        + image_blocks(more, seq));
}

/// A part of kind `text` gives its text, and a reference to an image gives one
/// image block with the attachment that it names.
pub proof fn law_parts_give_what_they_hold(v: JsonView, t: Seq<char>, seq: SessionSeq)
    requires
        v is Object,
    ensures
        kind_of(v) == Some("text"@) && v.str_at("text"@) == Some(t) ==> text_parts(v) == seq![t],
        (kind_of(v) == Some("image"@) || kind_of(v) == Some("attachment"@)) && v.str_at(
            "attachmentId"@,
        ) == Some(t) ==> image_blocks(v, seq).len() == 1 && image_blocks(v, seq)[0] is Image
            && image_blocks(v, seq)[0]->attachment_id == Some(t) && image_blocks(
            v,
            seq,
        )[0]->Image_seq == seq,
{
}

/// The kind of a part stands under `type`, or under `kind` where there is no
/// `type`.
pub proof fn law_parts_have_their_kind(v: JsonView, t: Seq<char>)
    ensures
        v.get("type"@) == Some(JsonView::Str(t)) ==> kind_of(v) == Some(t),
        v.get("type"@) is None && v.get("kind"@) == Some(JsonView::Str(t)) ==> kind_of(v)
            == Some(t),
        v.get("type"@) is None && v.get("kind"@) is None ==> kind_of(v) is None,
{
}

/// A message with images keeps the text beside them: the texts of its parts,
/// with a blank between them.
pub proof fn law_text_beside_images_is_kept(e: EventView, seq: SessionSeq)
    requires
        e.payload().get("attachmentId"@) is None,
        e.payload().get("attachment_id"@) is None,
        image_blocks(e.payload(), seq).len() > 0,
        text_parts(e.payload()).len() > 0,
    ensures
        ({
            let b = event_blocks(e, seq)[0];
            let text = joined(text_parts(e.payload()), " "@);
            &&& has_prefix(e.event_type, "user/"@) && e.payload().text_at("content"@) is None
                ==> b is UserMessage && b->UserMessage_content == text
            &&& has_prefix(e.event_type, "assistant/"@) ==> b is AssistantMessage
                && b->AssistantMessage_chunks.len() == 1 && b->AssistantMessage_chunks[0]
                is TextChunks && b->AssistantMessage_chunks[0]->TextChunks_0.texts == seq![text]
        }),
{
    law_block_is_what_its_type_says(e, seq);
    assert(nested_text_of(e.payload()) == Some(joined(text_parts(e.payload()), " "@)));
}

/// An assistant message begins without chunk rows where it has no images; they
/// come by themselves.
pub proof fn law_messages_begin_empty(e: EventView, seq: SessionSeq)
    requires
        e.payload().get("attachmentId"@) is None,
        e.payload().get("attachment_id"@) is None,
        image_blocks(e.payload(), seq).len() == 0,
        has_prefix(e.event_type, "assistant/"@),
    ensures
        event_blocks(e, seq).len() == 1,
        event_blocks(e, seq)[0] is AssistantMessage,
        event_blocks(e, seq)[0]->AssistantMessage_chunks.len() == 0,
{
    law_block_is_what_its_type_says(e, seq);
}

} // verus!
