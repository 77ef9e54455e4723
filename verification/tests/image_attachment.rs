//! Images that wait to be sent.

use dshtui::model::image_attachment::{
    image_path_lines, looks_like_local_path, media_type_from_extension, media_type_from_path,
    ImageAttachment, ImageAttachmentState,
};
use dshtui::wire::MediaType;

fn png(bytes: usize) -> ImageAttachment {
    ImageAttachment {
        path: "/a.png".into(),
        media_type: MediaType("image/png".into()),
        data_base64: "x".into(),
        bytes,
    }
}

#[test]
fn media_type_inference_and_rejection() {
    assert_eq!(media_type_from_path("x.PNG").unwrap().0, "image/png");
    assert_eq!(media_type_from_path("y.jpeg").unwrap().0, "image/jpeg");
    assert!(media_type_from_path("z.gif").is_ok());
    assert!(media_type_from_path("z.bmp").is_err());
    assert!(media_type_from_path("noext").is_err());
}

#[test]
fn validate_enforces_limits_and_whitelist() {
    let mut s = ImageAttachmentState::default();
    s.add(png(10));
    s.add(png(20));
    assert!(s
        .validate(Some(100), Some(3), Some(&["image/png".into()]))
        .is_ok());
    assert!(s.validate(Some(25), None, None).is_err());
    assert!(s.validate(None, Some(1), None).is_err());
    assert!(
        s.validate(None, None, Some(&["image/webp".into()]))
            .is_err()
    );
}

#[test]
fn add_clear_and_single_flight_flag() {
    let mut s = ImageAttachmentState::default();
    s.add(png(1));
    assert_eq!(s.pending.len(), 1);
    s.clear_pending();
    assert!(s.pending.is_empty());
    assert!(!s.inflight);
    s.inflight = true;
    assert!(s.inflight);
}

#[test]
fn classify_image_lines_and_local_path_guard_ac007_24() {
    assert_eq!(
        image_path_lines(
            "/home/nd/a.png\n看一下这个图\nhttps://x.com/b.png\n@[s](dsh-session:s1)\n./c.jpeg"
        ),
        vec!["/home/nd/a.png", "./c.jpeg"],
    );
    assert_eq!(
        image_path_lines("/a.txt\n/a.svg\nplain text here"),
        Vec::<&str>::new(),
    );
    assert_eq!(image_path_lines(""), Vec::<&str>::new());
    assert!(!looks_like_local_path("https://x/y.png"));
    assert!(!looks_like_local_path("@[部署](dsh-session:s1)"));
    assert!(!looks_like_local_path("two words.png"));
    assert!(looks_like_local_path("/abs/x.png"));
    assert!(looks_like_local_path("C:\\x.png"));
}

#[test]
fn validate_local_soft_limit_per_image_and_count_d51() {
    let mut s = ImageAttachmentState::default();
    s.add(png(100));
    s.add(png(100));
    s.add(png(100));
    assert!(
        s.validate_local_soft_limit(2, 1000).is_err()
    );
    let mut s2 = ImageAttachmentState::default();
    s2.add(png(10));
    s2.add(png(25));
    s2.add(png(5));
    assert!(
        s2.validate_local_soft_limit(10, 20).is_err()
    );
    let mut s3 = ImageAttachmentState::default();
    s3.add(png(10));
    s3.add(png(19));
    assert!(
        s3.validate_local_soft_limit(2, 20).is_ok()
    );
    let mut s4 = ImageAttachmentState::default();
    s4.add(png(20));
    assert!(s4.validate_local_soft_limit(10, 20).is_ok());
}

#[test]
fn sizes_add_up() {
    let mut s = ImageAttachmentState::default();
    s.add(png(10));
    s.add(png(20));
    assert_eq!(s.total_bytes(), 30);
    assert_eq!(media_type_from_extension("webp").unwrap().0, "image/webp");
    assert!(media_type_from_extension("WebP").is_err());
    assert_eq!(media_type_from_path("x.WebP").unwrap().0, "image/webp");
    assert!(media_type_from_extension("").is_err());
}
