use tg_adapter::event::TextFormat;
use tg_adapter::outgoing::{decode_base64_image, merge_captions, FormattedPayload, OutgoingText, PrepareError};

#[test]
fn outgoing_text_keeps_single_format() {
    let mut text = OutgoingText::new();
    text.push_text("hello".to_string(), Some(TextFormat::Html));
    text.push_text(" world".to_string(), Some(TextFormat::Html));

    let payload = text.into_payload().unwrap();

    assert_eq!(payload.text, "hello world");
    assert_eq!(payload.format, Some(TextFormat::Html));
}

#[test]
fn outgoing_text_drops_mixed_formats() {
    let mut text = OutgoingText::new();
    text.push_text("hello".to_string(), Some(TextFormat::Markdown));
    text.push_text(" world".to_string(), None);

    let payload = text.into_payload().unwrap();

    assert_eq!(payload.text, "hello world");
    assert_eq!(payload.format, None);
}

#[test]
fn merge_captions_combines_distinct_text() {
    let merged = merge_captions(
        Some(FormattedPayload {
            text: "first".to_string(),
            format: Some(TextFormat::Html),
        }),
        Some("second".to_string()),
    )
    .unwrap();

    assert_eq!(merged.text, "first\nsecond");
    assert_eq!(merged.format, None);
}

#[test]
fn decode_base64_image_accepts_data_url() {
    let decoded = decode_base64_image("data:image/png;base64,aGVsbG8=").unwrap();

    assert_eq!(decoded, b"hello");
}

#[test]
fn gathered_text_uses_a_format_only_when_all_share_it() {
    let cases: Vec<(Vec<(&str, Option<TextFormat>)>, Option<(&str, Option<TextFormat>)>)> = vec![
        (vec![], None),
        (vec![("", Some(TextFormat::Html))], None),
        (vec![("a", Some(TextFormat::Html)), ("", None), ("b", Some(TextFormat::Html))], Some(("ab", Some(TextFormat::Html)))),
        (vec![("a", Some(TextFormat::Html)), ("b", Some(TextFormat::Markdown))], Some(("ab", None))),
        (vec![("a", None), ("b", Some(TextFormat::Html))], Some(("ab", None))),
        (vec![("a", None), ("b", None)], Some(("ab", None))),
        (vec![("a", Some(TextFormat::MarkdownV2))], Some(("a", Some(TextFormat::MarkdownV2)))),
    ];
    for (pieces, expected) in cases {
        let mut text = OutgoingText::new();
        for (t, f) in &pieces {
            text.push(t.to_string(), *f);
        }
        let got = text.into_payload().map(|p| (p.text, p.format));
        assert_eq!(got, expected.map(|(t, f)| (t.to_string(), f)), "pieces {pieces:?}");
    }
}

#[test]
fn decode_base64_image_rejects_bad_data() {
    assert_eq!(decode_base64_image("not base64!"), Err(PrepareError::InvalidImageData));
    assert_eq!(decode_base64_image("  aGVsbG8=\n").unwrap(), b"hello");
}
