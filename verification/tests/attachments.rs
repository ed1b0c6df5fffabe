//! Files: what they are, whether their label agrees, and what they are called.

use loca::attachments::{
    cap_bytes, default_name, disposition_safe, is_control, mime_matches, sanitize_filename,
    sniff_mime,
};
use loca::content::read_room_attachment;
use loca::protocol::{Attachment, Message, MessageKind, SenderType};

#[test]
fn sniff_recognizes_allowlist_and_rejects_others() {
    assert_eq!(
        sniff_mime(&[0x89, b'P', b'N', b'G', 0x0D, 0x0A, 0x1A, 0x0A]),
        Some("image/png")
    );
    assert_eq!(sniff_mime(&[0xFF, 0xD8, 0xFF, 0x00]), Some("image/jpeg"));
    let mut webp = b"RIFF".to_vec();
    webp.extend_from_slice(&[0, 0, 0, 0]);
    webp.extend_from_slice(b"WEBP");
    assert_eq!(sniff_mime(&webp), Some("image/webp"));
    assert_eq!(sniff_mime(b"%PDF-1.7\n"), Some("application/pdf"));
    assert_eq!(sniff_mime(b"just some text"), Some("text/plain"));
    // A NUL byte means not-text; with no magic match it is unsupported.
    assert_eq!(sniff_mime(&[0x00, 0x01, 0x02, 0x03]), None);
    // An ELF binary (script/executable) sent as bytes: rejected.
    assert_eq!(sniff_mime(&[0x7F, b'E', b'L', b'F', 0x00]), None);
}

#[test]
fn claimed_type_must_match_sniff() {
    assert!(mime_matches("image/png", "image/png"));
    assert!(mime_matches("image/png; charset=binary", "image/png"));
    assert!(!mime_matches("image/png", "application/pdf"));
    // A script claimed as png must fail against a text sniff.
    assert!(!mime_matches("image/png", "text/plain"));
    // Text accepts either label.
    assert!(mime_matches("text/markdown", "text/plain"));
    assert!(mime_matches("text/plain", "text/plain"));
}

#[test]
fn filename_is_sanitized_and_never_a_path() {
    assert_eq!(
        sanitize_filename(Some("../../etc/passwd"), "text/plain"),
        ".._.._etc_passwd"
    );
    assert_eq!(sanitize_filename(Some("a\r\nb: c"), "text/plain"), "ab: c");
    assert_eq!(sanitize_filename(Some("  "), "image/png"), "attachment.png");
    assert_eq!(sanitize_filename(None, "application/pdf"), "attachment.pdf");
    // A CRLF injection attempt loses the control chars.
    assert!(!sanitize_filename(Some("x\r\nSet-Cookie: y"), "text/plain").contains('\n'));
}

#[test]
fn filename_capped_at_255_bytes_on_boundary() {
    let long = "é".repeat(200); // 400 bytes
    let out = sanitize_filename(Some(&long), "text/plain");
    assert!(out.len() <= 255);
    assert!(std::str::from_utf8(out.as_bytes()).is_ok());
    // Two bytes a letter: the largest whole number of letters under the cap.
    assert_eq!(out.chars().count(), 127);
}

#[test]
fn disposition_neutralizes_quotes() {
    assert_eq!(disposition_safe("a\"b\\c"), "a_b_c");
}

#[test]
fn broken_utf8_is_not_text() {
    assert_eq!(sniff_mime("déjà vu".as_bytes()), Some("text/plain"));
    // A lone continuation byte.
    assert_eq!(sniff_mime(&[b'a', 0x80, b'b']), None);
    // An overlong encoding of a slash.
    assert_eq!(sniff_mime(&[0xC0, 0xAF]), None);
    // A surrogate half.
    assert_eq!(sniff_mime(&[0xED, 0xA0, 0x80]), None);
    // A four byte character, whole and cut short.
    assert_eq!(sniff_mime(&[0xF0, 0x9F, 0x98, 0x80]), Some("text/plain"));
    assert_eq!(sniff_mime(&[0xF0, 0x9F, 0x98]), None);
    assert_eq!(sniff_mime(&[]), Some("text/plain"));
}

#[test]
fn a_cut_never_splits_a_letter() {
    assert_eq!(cap_bytes("aéb", 2), "a");
    assert_eq!(cap_bytes("aéb", 3), "aé");
    assert_eq!(cap_bytes("aéb", 4), "aéb");
    assert_eq!(cap_bytes("abc", 0), "");
}

#[test]
fn every_kind_of_file_has_a_usual_name() {
    assert_eq!(default_name("image/png"), "attachment.png");
    assert_eq!(default_name("image/jpeg"), "attachment.jpg");
    assert_eq!(default_name("image/webp"), "attachment.webp");
    assert_eq!(default_name("application/pdf"), "attachment.pdf");
    assert_eq!(default_name("text/plain"), "attachment.txt");
}

#[test]
fn control_characters_are_known() {
    assert!(is_control('\n'));
    assert!(is_control('\u{7f}'));
    assert!(is_control('\u{9f}'));
    assert!(!is_control(' '));
    assert!(!is_control('\u{a0}'));
}

#[test]
fn a_file_is_served_in_its_room_alone() {
    let message = |room: &str, file: &str| Message {
        id: 1,
        room: room.into(),
        sender: "ada".into(),
        sender_type: SenderType::User,
        target: None,
        text: "look".into(),
        kind: MessageKind::Say,
        reply_to: None,
        reply_to_sender: None,
        ts: 1,
        attachments: vec![Attachment {
            id: file.into(),
            sha256: "00".into(),
            name: format!("{file}.png"),
            mime: "image/png".into(),
            size: 1,
        }],
    };
    let archive = vec![message("proj", "f1"), message("other", "f2")];
    assert_eq!(read_room_attachment(&archive, "proj", "f1").expect("file").name, "f1.png");
    assert!(read_room_attachment(&archive, "proj", "f2").is_none());
    assert!(read_room_attachment(&archive, "other", "f1").is_none());
    assert!(read_room_attachment(&archive, "proj", "f3").is_none());
}
