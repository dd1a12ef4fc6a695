use gptoss::codec::Gptoss;
use gptoss::model::{ContentItem, ErrorCode, Message, Role};

fn decode_str(s: &str) -> Message {
    let g = Gptoss::new();
    g.decode(s.as_bytes().to_vec()).expect("valid UTF-8 must decode")
}

fn only_text(m: &Message) -> String {
    assert_eq!(m.content.len(), 1);
    match &m.content[0] {
        ContentItem::Text(t) => t.clone(),
        _ => panic!("expected a text item"),
    }
}

#[test]
fn plain_text_without_markers_is_verbatim_and_not_final() {
    let m = decode_str("Hello world");
    assert_eq!(m.role, Role::Assistant);
    assert!(!m.final_);
    assert_eq!(only_text(&m), "Hello world");
}

#[test]
fn plain_text_keeps_surrounding_whitespace() {
    let m = decode_str("  spaced out  ");
    assert_eq!(only_text(&m), "  spaced out  ");
    assert!(!m.final_);
}

#[test]
fn final_channel_takes_precedence_over_analysis() {
    let m = decode_str("<|channel|>final\nHello<|channel|>analysis\nThinking");
    assert!(m.final_);
    assert_eq!(only_text(&m), "Hello");
}

#[test]
fn commentary_tool_call_is_extracted() {
    let m = decode_str("<|channel|>commentary\nto=functions.lookup {\"city\": \"Paris\"}");
    assert_eq!(m.role, Role::Assistant);
    assert!(!m.final_);
    assert_eq!(m.content.len(), 1);
    match &m.content[0] {
        ContentItem::ToolInput(t) => {
            assert_eq!(t.name, "lookup");
            assert!(t
                .arguments
                .iter()
                .any(|(k, v)| k == "city" && v == "Paris"));
        }
        _ => panic!("expected a tool input item"),
    }
}

#[test]
fn decode_never_errors_on_valid_utf8() {
    let inputs = [
        "",
        "<|channel|>",
        "<|message|>",
        "<|start|>",
        "<|channel|>final",
        "<|channel|>commentary\nto=functions.f }x{",
        "<|channel|>\n\n<|channel|>",
        "<|return|><|end|><|call|>",
        "to=functions.orphan {\"a\": 1}",
        "<|channel|>final\n",
    ];
    let g = Gptoss::new();
    for s in inputs {
        let r = g.decode(s.as_bytes().to_vec());
        assert!(r.is_ok(), "decode must not fail on {:?}", s);
        let m = r.unwrap();
        assert_eq!(m.role, Role::Assistant);
        assert!(!m.content.is_empty());
    }
}

#[test]
fn decode_rejects_invalid_utf8() {
    let g = Gptoss::new();
    let r = g.decode(vec![0xff, 0xfe, 0x41]);
    assert!(r.is_err());
    let e = r.err().unwrap();
    assert_eq!(e.code(), ErrorCode::Unknown);
    assert_eq!(e.data(), "");
    assert_eq!(e.message, "Invalid UTF-8 in raw data");
}

#[test]
fn commentary_identical_to_analysis_is_suppressed() {
    let g = Gptoss::new();
    let m = g.parse_channel_message("<|channel|>analysis\nSame<|channel|>commentary\nSame");
    assert!(!m.final_);
    assert_eq!(only_text(&m), "Same");
}

#[test]
fn commentary_different_from_analysis_wins_without_final() {
    let g = Gptoss::new();
    let m = g.parse_channel_message("<|channel|>analysis\nThink<|channel|>commentary\nNote");
    assert!(!m.final_);
    assert_eq!(only_text(&m), "Note");
}

#[test]
fn single_line_channel_with_space_routes_content() {
    let m = decode_str("<|channel|>final Hello");
    assert!(m.final_);
    assert_eq!(only_text(&m), "Hello");
}

#[test]
fn unknown_channel_content_goes_to_final_without_final_flag() {
    let m = decode_str("<|channel|>other\nStuff");
    assert!(!m.final_);
    assert_eq!(only_text(&m), "Stuff");
}

#[test]
fn empty_channels_give_empty_text() {
    let m = decode_str("<|channel|>final\n \n<|channel|>analysis\n \n");
    // the final label was seen, but every buffer trims to empty
    assert!(m.final_);
    assert_eq!(only_text(&m), "");
}

#[test]
fn text_before_first_channel_marker_is_discarded() {
    let m = decode_str("preamble<|channel|>final\nAnswer");
    assert!(m.final_);
    assert_eq!(only_text(&m), "Answer");
}
