//! Attachments of inbound messages.
use base64::Engine as _;
use zeptoclaw::bus::{InboundMessage, MediaAttachment, MediaType};
use zeptoclaw::inbound::{
    image_paths, inbound_to_message, megabytes_text, resolve_images_to_base64, ImageVerdict,
    MAX_TEXT_DOCUMENT_SIZE,
};
use zeptoclaw::session::{ContentPart, ImageSource, Message};

#[test]
fn test_inbound_to_message_with_image() {
    let media = MediaAttachment::new(MediaType::Image)
        .with_data(vec![0xFF, 0xD8, 0xFF, 0xE0])
        .with_mime_type("image/jpeg");
    let msg = InboundMessage::new("telegram", "user1", "chat1", "What is this?").with_media(media);

    let result = inbound_to_message(&msg, &vec![ImageVerdict::Inline]);
    assert!(result.has_images(), "message should carry the image part");
    assert_eq!(result.content_parts.len(), 2, "text + one image part");
    assert_eq!(result.content, "What is this?");
    match &result.content_parts[1] {
        ContentPart::Image {
            source: ImageSource::Base64 { data },
            media_type,
        } => {
            assert_eq!(data, "/9j/4A==");
            assert_eq!(media_type, "image/jpeg");
        }
        other => panic!("expected an inline image, got {other:?}"),
    }
}

#[test]
fn test_inbound_to_message_without_media() {
    let msg = InboundMessage::new("telegram", "user1", "chat1", "Hello");
    let result = inbound_to_message(&msg, &vec![]);
    assert!(!result.has_images(), "message should have no images");
    assert_eq!(result.content_parts.len(), 1, "text part only");
}

#[test]
fn test_inbound_to_message_skips_non_image_media() {
    let media = MediaAttachment::new(MediaType::Audio)
        .with_data(vec![0x00, 0x01])
        .with_mime_type("audio/mpeg");
    let msg = InboundMessage::new("telegram", "user1", "chat1", "Listen").with_media(media);

    let result = inbound_to_message(&msg, &vec![ImageVerdict::Inline]);
    assert!(
        !result.has_images(),
        "audio media should not become an image part"
    );
    assert_eq!(result.content_parts.len(), 1, "text part only");
}

#[test]
fn test_inbound_to_message_skips_invalid_mime() {
    let media = MediaAttachment::new(MediaType::Image)
        .with_data(vec![0x4D, 0x4D, 0x00, 0x2A])
        .with_mime_type("image/tiff");
    let msg = InboundMessage::new("telegram", "user1", "chat1", "TIFF file").with_media(media);

    let result = inbound_to_message(&msg, &vec![ImageVerdict::Rejected]);
    assert!(
        !result.has_images(),
        "unsupported MIME type should be skipped"
    );
}

#[test]
fn test_inbound_to_message_with_media_store() {
    let media = MediaAttachment::new(MediaType::Image)
        .with_data(vec![0xFF, 0xD8, 0xFF, 0xE0])
        .with_mime_type("image/jpeg");
    let msg = InboundMessage::new("telegram", "user1", "chat1", "What is this?").with_media(media);

    let result = inbound_to_message(
        &msg,
        &vec![ImageVerdict::Saved("media/abc.jpg".to_string())],
    );
    assert!(result.has_images());

    if let ContentPart::Image { source, .. } = &result.content_parts[1] {
        assert!(
            matches!(source, ImageSource::FilePath { .. }),
            "Expected FilePath when MediaStore is provided"
        );
    } else {
        panic!("Expected Image content part");
    }
    assert_eq!(image_paths(&result), vec!["media/abc.jpg"]);
}

#[test]
fn test_inbound_to_message_appends_text_document() {
    let content = b"hello from attachment".to_vec();
    let media = MediaAttachment::new(MediaType::Document)
        .with_data(content)
        .with_mime_type("text/plain")
        .with_filename("note.txt");
    let msg = InboundMessage::new("discord", "user1", "chat1", "Check this").with_media(media);

    let result = inbound_to_message(&msg, &vec![ImageVerdict::Inline]);
    assert!(
        result.content.contains("--- Begin file: note.txt ---"),
        "should contain begin marker"
    );
    assert!(
        result.content.contains("hello from attachment"),
        "should contain file content"
    );
    assert!(
        result.content.contains("--- End file: note.txt ---"),
        "should contain end marker"
    );
    assert!(
        result.content.starts_with("Check this"),
        "original message should be preserved"
    );
}

#[test]
fn test_inbound_to_message_appends_json_document() {
    let content = br#"{"key":"value"}"#.to_vec();
    let media = MediaAttachment::new(MediaType::Document)
        .with_data(content)
        .with_mime_type("application/json")
        .with_filename("data.json");
    let msg = InboundMessage::new("discord", "user1", "chat1", "parse this").with_media(media);

    let result = inbound_to_message(&msg, &vec![ImageVerdict::Inline]);
    assert!(result.content.contains("--- Begin file: data.json ---"));
    assert!(result.content.contains(r#"{"key":"value"}"#));
}

#[test]
fn test_inbound_to_message_oversized_text_document_shows_skip_message() {
    let content = vec![b'a'; MAX_TEXT_DOCUMENT_SIZE + 1];
    let media = MediaAttachment::new(MediaType::Document)
        .with_data(content)
        .with_mime_type("text/plain")
        .with_filename("big.txt");
    let msg = InboundMessage::new("discord", "user1", "chat1", "big file").with_media(media);

    let result = inbound_to_message(&msg, &vec![ImageVerdict::Inline]);
    assert!(
        result.content.contains("big.txt"),
        "filename should appear in skip message"
    );
    assert!(
        result.content.contains("too large"),
        "skip message should mention size"
    );
    assert!(
        result.content.contains("MB"),
        "skip message should use MB units"
    );
    assert!(
        !result.content.contains("--- Begin file:"),
        "oversized file should not be inlined"
    );
}

#[test]
fn test_inbound_to_message_non_utf8_document_shows_skip_message() {
    let content = vec![0xFF, 0xFE, 0x00, 0x01];
    let media = MediaAttachment::new(MediaType::Document)
        .with_data(content)
        .with_mime_type("text/plain")
        .with_filename("binary.txt");
    let msg = InboundMessage::new("discord", "user1", "chat1", "bad file").with_media(media);

    let result = inbound_to_message(&msg, &vec![ImageVerdict::Inline]);
    assert!(
        result.content.contains("binary.txt"),
        "filename should appear in error message"
    );
    assert!(
        result.content.contains("not valid UTF-8"),
        "should report encoding error"
    );
}

#[test]
fn test_inbound_to_message_binary_document_type_ignored() {
    let content = b"%PDF-1.4".to_vec();
    let media = MediaAttachment::new(MediaType::Document)
        .with_data(content)
        .with_mime_type("application/pdf")
        .with_filename("doc.pdf");
    let msg = InboundMessage::new("discord", "user1", "chat1", "read pdf").with_media(media);

    let result = inbound_to_message(&msg, &vec![ImageVerdict::Inline]);
    assert_eq!(
        result.content, "read pdf",
        "unsupported document MIME type should leave content unchanged"
    );
    assert!(!result.content.contains("--- Begin file:"));
}

#[test]
fn test_inbound_to_message_document_without_data_ignored() {
    let media = MediaAttachment::new(MediaType::Document).with_mime_type("text/plain");
    let msg =
        InboundMessage::new("discord", "user1", "chat1", "empty attachment").with_media(media);

    let result = inbound_to_message(&msg, &vec![ImageVerdict::Inline]);
    assert_eq!(result.content, "empty attachment");
}

fn with_image(path: &str) -> Message {
    let mut msg = Message::user("see image");
    msg.content_parts = vec![
        ContentPart::Text {
            text: "see image".to_string(),
        },
        ContentPart::Image {
            source: ImageSource::FilePath {
                path: path.to_string(),
            },
            media_type: "image/jpeg".to_string(),
        },
    ];
    msg
}

#[test]
fn test_resolve_images_to_base64_resolves_file_path() {
    let fake_data = b"fakeimagedata";
    let mut msg = with_image("media/test.jpg");
    assert_eq!(image_paths(&msg), vec!["media/test.jpg"]);
    resolve_images_to_base64(&mut msg, &vec![Some(fake_data.to_vec())]);

    let resolved = &msg.content_parts[1];
    match resolved {
        ContentPart::Image {
            source: ImageSource::Base64 { data },
            ..
        } => {
            let decoded = base64::engine::general_purpose::STANDARD
                .decode(data)
                .unwrap();
            assert_eq!(decoded, fake_data);
        }
        other => panic!("expected Base64 source, got {:?}", other),
    }
    assert!(image_paths(&msg).is_empty());
}

#[test]
fn test_resolve_images_to_base64_skips_missing_file() {
    let mut msg = with_image("media/nonexistent.jpg");
    resolve_images_to_base64(&mut msg, &vec![None]);

    assert_eq!(
        msg.content_parts.len(),
        1,
        "missing file image part should be dropped"
    );
    assert!(
        matches!(&msg.content_parts[0], ContentPart::Text { .. }),
        "only the text part should remain"
    );
}

#[test]
fn sizes_are_rounded_to_tenths_of_a_megabyte() {
    for len in [0u64, 1, 52428, 52429, 104857, 104858, 102401, 157286, 157287, 5 << 20, 7_890_123] {
        let expected = format!("{:.1}", len as f64 / (1024.0 * 1024.0));
        assert_eq!(megabytes_text(len), expected, "{len}");
    }
}
