//! The image viewer and runs of images.

use dshtui::json::Json;
use dshtui::model::block::Block;
use dshtui::model::image::{
    image_block_of, image_run_by_attachment, image_run_of, is_supported_image, AttachmentData,
    AttachmentRef, ImageViewPhase, ImageViewState, ZOOM_ONE,
};
use dshtui::wire::{AttachmentId, MediaType, SessionSeq};

#[test]
fn supported_whitelist_and_rejects() {
    for ok in ["image/png", "image/jpeg", "image/gif", "image/webp"] {
        assert!(is_supported_image(ok));
    }
    assert!(!is_supported_image("image/svg+xml"));
    assert!(!is_supported_image(""));
}

#[test]
fn image_run_of_groups_contiguous_images_ac007_06() {
    let img = |seq: u64| Block::Image {
        seq: SessionSeq(seq),
        attachment_id: Some(format!("a{seq}")),
        name: None,
        dims: None,
    };
    let blocks = vec![
        img(1),
        img(2),
        Block::UserMessage {
            seq: SessionSeq(3),
            content: "之间".into(),
            time: None,
        },
        img(4),
        img(5),
        img(6),
    ];
    assert_eq!(image_run_of(&blocks, SessionSeq(1)), Some((0, 2, 0)));
    assert_eq!(image_run_of(&blocks, SessionSeq(2)), Some((0, 2, 1)));
    assert_eq!(image_run_of(&blocks, SessionSeq(5)), Some((3, 3, 1)));
    assert_eq!(image_run_of(&blocks, SessionSeq(3)), None);
    assert_eq!(image_run_of(&blocks, SessionSeq(99)), None);
}

#[test]
fn image_run_by_attachment_disambiguates_same_seq_siblings_ac007_30() {
    let img = |att: &str| Block::Image {
        seq: SessionSeq(7),
        attachment_id: Some(att.to_string()),
        name: None,
        dims: None,
    };
    let blocks = vec![
        Block::UserMessage {
            seq: SessionSeq(7),
            content: "图：".into(),
            time: None,
        },
        img("a1"),
        img("a2"),
        img("a3"),
    ];
    assert_eq!(image_run_of(&blocks, SessionSeq(7)), Some((1, 3, 0)));
    assert_eq!(image_run_by_attachment(&blocks, "a1"), Some((1, 3, 0)));
    assert_eq!(image_run_by_attachment(&blocks, "a2"), Some((1, 3, 1)));
    assert_eq!(image_run_by_attachment(&blocks, "a3"), Some((1, 3, 2)));
    assert_eq!(image_run_by_attachment(&blocks, "zz"), None);
}

#[test]
fn image_view_pager_move_and_close_clears_ac007_06() {
    let mut v = ImageViewState {
        open: true,
        ..Default::default()
    };
    v.set_pager(3, 1);
    assert_eq!(v.pager.as_ref().map(|p| (p.total, p.index)), Some((3, 1)));
    assert!(v.move_pager(1));
    assert_eq!(v.pager.as_ref().map(|p| p.index), Some(2));
    assert!(!v.move_pager(1));
    assert!(v.move_pager(-1));
    assert!(v.move_pager(-1));
    assert_eq!(v.pager.as_ref().map(|p| p.index), Some(0));
    v.close();
    assert!(v.pager.is_none());
}

#[test]
fn image_block_of_none_for_non_image_blocks() {
    let block = Block::Unknown {
        seq: SessionSeq(1),
        event_type: "weird/thing".into(),
        raw: Json::Null,
    };
    assert!(image_block_of(&block).is_none());
}

#[test]
fn the_viewer_goes_through_its_phases() {
    let mut v = ImageViewState::default();
    v.open_view(SessionSeq(7), AttachmentId("a1".into()), None, None);
    assert_eq!(v.phase, ImageViewPhase::Loading);
    v.mark_failed("c".into(), "m".into());
    assert_eq!(v.phase, ImageViewPhase::Failed);
    assert_eq!(v.error.as_ref().map(|e| e.code.as_str()), Some("c"));
    v.mark_rendered();
    assert_eq!(v.phase, ImageViewPhase::Rendered);
    v.close();
    assert_eq!(v, ImageViewState::default());
}

#[test]
fn the_zoom_is_encoded_once_at_a_time() {
    let mut v = ImageViewState::default();
    assert_eq!(f32::from_bits(v.zoom), 1.0);
    assert_eq!(ZOOM_ONE, 1.0f32.to_bits());
    v.set_zoom(2.0f32.to_bits());
    assert!(v.begin_zoom_encode());
    assert!(!v.begin_zoom_encode());
    v.finish_zoom_encode();
    assert!(!v.zoom_inflight);
    v.zoom_reset();
    assert_eq!(v.zoom, ZOOM_ONE);
    assert!(v.begin_zoom_encode());
    v.cancel_zoom_encode();
    assert!(!v.zoom_inflight);
}

#[test]
fn references_take_over_what_was_sent() {
    let data = AttachmentData {
        attachment_id: AttachmentId("a".into()),
        media_type: MediaType("image/png".into()),
        bytes: 9,
        width: 3,
        height: 4,
        name: Some("n".into()),
        original_dimensions: None,
    };
    let r = AttachmentRef::from_data(&data);
    assert_eq!((r.bytes, r.width, r.height), (9, 3, 4));
    assert_eq!(r.name.as_deref(), Some("n"));
}
