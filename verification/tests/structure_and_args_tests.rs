use gptoss::canonical::{aggregate_turns, Turn};
use gptoss::codec::Gptoss;
use gptoss::model::{ContentItem, Message, Role};

fn decode_str(s: &str) -> Message {
    Gptoss::new().decode(s.as_bytes().to_vec()).expect("valid UTF-8 must decode")
}

fn only_text(m: &Message) -> String {
    assert_eq!(m.content.len(), 1);
    match &m.content[0] {
        ContentItem::Text(t) => t.clone(),
        _ => panic!("expected a text item"),
    }
}

#[test]
fn structured_turn_body_is_trimmed_text() {
    let m = decode_str("<|start|>assistant<|message|> Hi there <|end|>");
    assert!(!m.final_);
    assert_eq!(only_text(&m), "Hi there");
}

#[test]
fn structured_turn_body_ends_at_earliest_terminator() {
    // the call marker comes first in text order, so the body stops there,
    // even though an end marker follows later
    let m = decode_str("<|start|>assistant<|message|>A<|call|>B<|end|>");
    match &m.content[0] {
        ContentItem::Text(t) => assert_eq!(t, "A"),
        _ => panic!("expected a text item"),
    }
}

#[test]
fn structured_turn_with_return_marker_is_final() {
    let m = decode_str("<|start|>assistant<|message|>Done<|return|>");
    assert!(m.final_);
    assert_eq!(only_text(&m), "Done");
}

#[test]
fn structured_turn_with_final_word_in_header_is_final() {
    let m = decode_str("<|start|>assistant final<|message|>Answer<|end|>");
    assert!(m.final_);
    assert_eq!(only_text(&m), "Answer");
}

#[test]
fn structured_tool_call_takes_name_up_to_marker() {
    let m = decode_str("<|start|>assistant to=functions.get<|message|>{\"c\":\"d\"}<|call|>");
    assert!(!m.final_);
    match &m.content[0] {
        ContentItem::ToolInput(t) => {
            assert_eq!(t.name, "get");
            assert_eq!(t.arguments, vec![("c".to_string(), "d".to_string())]);
        }
        _ => panic!("expected a tool input item"),
    }
}

#[test]
fn start_marker_without_message_marker_falls_back_to_trimmed_text() {
    let m = decode_str("<|start|>assistant partial ");
    assert!(!m.final_);
    // "final" does not occur, the message marker is absent: trimmed fallback
    assert_eq!(only_text(&m), "<|start|>assistant partial");
}

#[test]
fn parse_tool_arguments_of_empty_text_is_raw_pair() {
    let g = Gptoss::new();
    assert_eq!(
        g.parse_tool_arguments(""),
        vec![("raw".to_string(), "".to_string())]
    );
}

#[test]
fn parse_tool_arguments_of_non_object_is_raw_pair() {
    let g = Gptoss::new();
    assert_eq!(
        g.parse_tool_arguments("not json"),
        vec![("raw".to_string(), "not json".to_string())]
    );
}

#[test]
fn parse_tool_arguments_of_empty_object_is_json_pair() {
    // nothing parses from an empty object, so the original text passes
    // through under the json key
    let g = Gptoss::new();
    assert_eq!(
        g.parse_tool_arguments("{}"),
        vec![("json".to_string(), "{}".to_string())]
    );
    assert_eq!(
        g.parse_tool_arguments(" {  } "),
        vec![("json".to_string(), " {  } ".to_string())]
    );
}

#[test]
fn parse_tool_arguments_splits_pairs_and_trims_quotes() {
    let g = Gptoss::new();
    assert_eq!(
        g.parse_tool_arguments("{\"a\": \"1\", 'b' : '2', c:3}"),
        vec![
            ("a".to_string(), "1".to_string()),
            ("b".to_string(), "2".to_string()),
            ("c".to_string(), "3".to_string()),
        ]
    );
}

#[test]
fn parse_tool_arguments_without_colons_is_json_pair() {
    let g = Gptoss::new();
    assert_eq!(
        g.parse_tool_arguments("{invalid}"),
        vec![("json".to_string(), "{invalid}".to_string())]
    );
}

#[test]
fn parse_tool_arguments_drops_empty_keys() {
    let g = Gptoss::new();
    assert_eq!(
        g.parse_tool_arguments("{: \"v\", k: w}"),
        vec![("k".to_string(), "w".to_string())]
    );
}

#[test]
fn parse_tool_arguments_is_stable_on_flattened_text() {
    // already-flattened plain text passes through unchanged, however often
    // it is fed back
    let g = Gptoss::new();
    let once = g.parse_tool_arguments("city=Paris");
    assert_eq!(once, vec![("raw".to_string(), "city=Paris".to_string())]);
    let again = g.parse_tool_arguments(&once[0].1);
    assert_eq!(again, once);
}

fn text_turn(channel: Option<&str>, texts: &[&str]) -> Turn {
    Turn {
        channel: channel.map(|c| c.to_string()),
        recipient: None,
        texts: texts.iter().map(|t| Some(t.to_string())).collect(),
    }
}

#[test]
fn aggregation_orders_analysis_before_final() {
    let turns = vec![
        text_turn(Some("analysis"), &["thinking", "hard"]),
        text_turn(Some("final"), &["the answer"]),
    ];
    let m = aggregate_turns(&turns);
    assert!(m.final_);
    assert_eq!(m.content.len(), 2);
    match (&m.content[0], &m.content[1]) {
        (ContentItem::Text(a), ContentItem::Text(f)) => {
            assert_eq!(a, "thinking hard");
            assert_eq!(f, "the answer");
        }
        _ => panic!("expected two text items"),
    }
}

#[test]
fn aggregation_routes_absent_channel_to_final_without_flag() {
    let turns = vec![text_turn(None, &["plain"])];
    let m = aggregate_turns(&turns);
    assert!(!m.final_);
    assert_eq!(only_text(&m), "plain");
}

#[test]
fn aggregation_first_tool_call_wins() {
    let tool = |name: &str, args: &str| Turn {
        channel: Some("commentary".to_string()),
        recipient: Some(format!("functions.{name}")),
        texts: vec![Some(args.to_string())],
    };
    let turns = vec![
        text_turn(Some("analysis"), &["thinking"]),
        tool("first", "{\"a\": \"1\"}"),
        tool("second", "{\"b\": \"2\"}"),
    ];
    let m = aggregate_turns(&turns);
    assert!(!m.final_);
    assert_eq!(m.content.len(), 1);
    match &m.content[0] {
        ContentItem::ToolInput(t) => {
            assert_eq!(t.name, "first");
            assert_eq!(t.arguments, vec![("a".to_string(), "1".to_string())]);
        }
        _ => panic!("expected a tool input item"),
    }
}

#[test]
fn aggregation_of_identical_commentary_and_analysis_dedups() {
    let turns = vec![
        text_turn(Some("analysis"), &["same words"]),
        text_turn(Some("commentary"), &["same words"]),
        text_turn(Some("final"), &["done"]),
    ];
    let m = aggregate_turns(&turns);
    assert!(m.final_);
    assert_eq!(m.content.len(), 2);
    match (&m.content[0], &m.content[1]) {
        (ContentItem::Text(a), ContentItem::Text(f)) => {
            assert_eq!(a, "same words");
            assert_eq!(f, "done");
        }
        _ => panic!("expected two text items"),
    }
}

#[test]
fn aggregation_of_no_turns_gives_single_empty_text() {
    let m = aggregate_turns(&vec![]);
    assert!(!m.final_);
    assert_eq!(only_text(&m), "");
    assert_eq!(m.role, Role::Assistant);
}
