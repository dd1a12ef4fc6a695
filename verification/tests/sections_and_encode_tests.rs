use gptoss::codec::Gptoss;
use gptoss::model::{ErrorCode, GptossError, Message, Role, ContentItem};

#[test]
fn extract_channel_sections_finds_labelled_sections() {
    let g = Gptoss::new();
    let s = g.extract_channel_sections("<|channel|>final\nHello<|channel|>analysis\nThink");
    assert_eq!(s.len(), 2);
    assert_eq!(s[0].channel, "final");
    assert_eq!(s[0].content, "Hello");
    assert_eq!(s[1].channel, "analysis");
    assert_eq!(s[1].content, "Think");
}

#[test]
fn extract_channel_sections_without_newline_uses_default_label() {
    let g = Gptoss::new();
    let s = g.extract_channel_sections("<|channel|> loose content ");
    assert_eq!(s.len(), 1);
    assert_eq!(s[0].channel, "default");
    assert_eq!(s[0].content, "loose content");
}

#[test]
fn extract_channel_sections_skips_empty_sections() {
    let g = Gptoss::new();
    let s = g.extract_channel_sections("no markers at all");
    assert!(s.is_empty());
    let s = g.extract_channel_sections("<|channel|>\n<|channel|>name\n\n<|channel|>ok\nbody");
    assert_eq!(s.len(), 1);
    assert_eq!(s[0].channel, "ok");
    assert_eq!(s[0].content, "body");
}

#[test]
fn encode_forwards_only_text_and_succeeds_only_with_a_provider() {
    let g = Gptoss::new();
    let messages = vec![
        Message {
            role: Role::User,
            content: vec![ContentItem::Text("What is the capital?".to_string())],
            final_: false,
        },
        Message {
            role: Role::Unknown,
            content: vec![ContentItem::Text("context".to_string())],
            final_: false,
        },
    ];
    match g.encode(messages) {
        // without the provider's vocabulary the encoding cannot be loaded
        Err(e) => assert_eq!(e.code(), ErrorCode::Unknown),
        // with it, the rendered conversation is valid UTF-8, so decoding
        // it back cannot fail, and some text derived from the input remains
        Ok(bytes) => {
            assert!(String::from_utf8(bytes.clone()).is_ok());
            let decoded = g.decode(bytes).expect("encoded bytes are valid UTF-8");
            assert!(!decoded.content.is_empty());
            match &decoded.content[0] {
                ContentItem::Text(t) => assert!(!t.is_empty()),
                _ => {}
            }
        }
    }
}

#[test]
fn error_accessors_expose_message_code_and_data() {
    let e = GptossError::new("something failed".to_string());
    assert_eq!(e.message, "something failed");
    assert_eq!(e.code(), ErrorCode::Unknown);
    assert_eq!(e.data(), "");
}
