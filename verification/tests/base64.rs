//! Text for the terminal's clipboard.

use dshtui::driver::base64::{base64_encode, osc52};

#[test]
fn base64_encodes_rfc4648_for_osc52() {
    assert_eq!(base64_encode(b"Man"), "TWFu");
    assert_eq!(base64_encode(b"Ma"), "TWE=");
    assert_eq!(base64_encode(b"M"), "TQ==");
    assert_eq!(base64_encode(b"dshtui"), "ZHNodHVp");
    assert_eq!(base64_encode(b""), "");
}

#[test]
fn encoded_text_is_framed_for_the_terminal() {
    assert_eq!(osc52("M"), "\u{1b}]52;c;TQ==\u{7}");
    assert_eq!(base64_encode(&[0xff, 0xfe, 0xfd]), "//79");
}
