//! What is taken to the clipboard.

use dshtui::json::{parse, Json};
use dshtui::model::block::{Block, PackedChunks};
use dshtui::model::yank::{
    block_plain_text, block_yank_target, selection_text, MessageText, VisualMode, VisualSelection,
    YankBackend, YankTarget,
};
use dshtui::wire::{ChunkData, ChunkRow, SessionSeq};

fn json(text: &str) -> Json {
    parse(text).unwrap()
}

fn message(text: &str, code: Option<&str>, link: Option<&str>) -> MessageText {
    MessageText {
        text: text.into(),
        code: code.map(String::from),
        link: link.map(String::from),
    }
}

fn assistant(seq: u64, md: &str) -> Block {
    Block::AssistantMessage {
        seq: SessionSeq(seq),
        chunks: PackedChunks {
            rows: vec![ChunkRow::TextChunks(ChunkData {
                texts: vec![md.to_string()],
                ..Default::default()
            })],
        },
        time: None,
        message_id: None,
    }
}

#[test]
fn link_in_focused_block_yanks_url_ac003_04() {
    let b = assistant(1, "见 [部署文档](https://example.com/x)。");
    let target = block_yank_target(
        &b,
        &message(
            "见 [部署文档](https://example.com/x)。",
            None,
            Some("https://example.com/x"),
        ),
    )
    .unwrap();
    assert_eq!(target, YankTarget::Link("https://example.com/x".into()));
}

#[test]
fn tool_result_yanks_result_text() {
    let b = Block::ToolResult {
        seq: SessionSeq(2),
        call_id: None,
        content: "✓ 12ms\noutput".into(),
        is_error: false,
        time: None,
    };
    assert_eq!(
        block_yank_target(&b, &message("", None, None)),
        Some(YankTarget::ToolResult("✓ 12ms\noutput".into())),
    );
}

#[test]
fn tool_call_yanks_args_as_code() {
    let b = Block::ToolCall {
        seq: SessionSeq(3),
        call_id: Some("c1".into()),
        name: Some("bash".into()),
        args_raw: Some(json(r#"{"command": "ls"}"#)),
        time: None,
    };
    assert_eq!(
        block_yank_target(&b, &message("", None, None)),
        Some(YankTarget::Code(r#"{"command":"ls"}"#.into())),
    );
}

#[test]
fn image_yanks_name() {
    let b = Block::Image {
        seq: SessionSeq(4),
        attachment_id: Some("a1".into()),
        name: Some("design.png".into()),
        dims: None,
    };
    assert_eq!(
        block_yank_target(&b, &message("", None, None)),
        Some(YankTarget::Image("design.png".into())),
    );
}

#[test]
fn selection_char_mode_single_block_line_mode_joins() {
    let blocks = vec![
        Block::UserMessage {
            seq: SessionSeq(1),
            content: "第一行".into(),
            time: None,
        },
        Block::UserMessage {
            seq: SessionSeq(2),
            content: "第二行".into(),
            time: None,
        },
        Block::UserMessage {
            seq: SessionSeq(3),
            content: "第三行".into(),
            time: None,
        },
    ];
    let none = vec![String::new(); 3];
    let char_sel = VisualSelection {
        anchor: 1,
        cursor: 2,
        mode: VisualMode::Char,
    };
    assert_eq!(
        selection_text(&blocks, &none, &char_sel).as_deref(),
        Some("第二行"),
    );
    let line_sel = VisualSelection {
        anchor: 0,
        cursor: 2,
        mode: VisualMode::Line,
    };
    assert_eq!(
        selection_text(&blocks, &none, &line_sel).as_deref(),
        Some("第一行\n第二行\n第三行"),
    );
}

#[test]
fn code_goes_before_links_and_text() {
    let b = assistant(1, "x");
    assert_eq!(
        block_yank_target(&b, &message("t", Some("c"), Some("l"))),
        Some(YankTarget::Code("c".into()))
    );
    let plain = block_yank_target(&b, &message("t", None, None)).unwrap();
    assert_eq!(plain, YankTarget::Paragraph("t".into()));
    assert_eq!(plain.content(), "t");
    assert_eq!(block_plain_text(&b, "t"), "t");
}

#[test]
fn selections_have_a_range_in_either_direction() {
    let back = VisualSelection { anchor: 4, cursor: 1, mode: VisualMode::Line };
    assert_eq!(back.range(), (1, 4));
    let outside = VisualSelection { anchor: 9, cursor: 9, mode: VisualMode::Char };
    assert_eq!(selection_text(&[], &Vec::new(), &outside), None);
    assert_eq!(YankBackend::Osc52.as_str(), "osc52");
    assert_eq!(YankBackend::default(), YankBackend::Unavailable);
}
