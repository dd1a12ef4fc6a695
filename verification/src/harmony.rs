//! The trusted boundary to the tokenizer provider and to UTF-8 conversion.
//! Each wrapper makes one outside call; what the callers prove rests on the
//! contracts stated here.
use vstd::prelude::*;

verus! {

use vstd::utf8::{valid_utf8, decode_utf8, encode_utf8};
use openai_harmony::chat::Message as HarmonyChatMessage;
use crate::model::Role;
use crate::text::contains_seq;
use crate::markers::{message_marker, end_marker, call_marker, return_marker};

#[verifier::external_type_specification]
#[verifier::external_body]
pub struct ExHarmonyEncoding(openai_harmony::HarmonyEncoding);

#[verifier::external_type_specification]
#[verifier::external_body]
pub struct ExHarmonyMessage(HarmonyChatMessage);

/// Relies on String::from_utf8: it succeeds exactly on valid UTF-8 input,
/// and the string it returns decodes those bytes.
#[verifier::external_body]
pub fn utf8_to_string(bytes: Vec<u8>) -> (r: Option<String>)
    ensures
        r is Some <==> valid_utf8(bytes@),
        r matches Some(s) ==> s@ == decode_utf8(bytes@) && encode_utf8(s@) == bytes@,
{
    String::from_utf8(bytes).ok()
}

/// Relies on load_harmony_encoding with the GPT-OSS encoding name. Whether
/// it succeeds depends on the environment (the vocabulary is fetched or
/// read from a cache), so nothing is promised of the outcome.
#[verifier::external_body]
pub fn load_encoding() -> Option<openai_harmony::HarmonyEncoding> {
    openai_harmony::load_harmony_encoding(openai_harmony::HarmonyEncodingName::HarmonyGptOss).ok()
}

/// Relies on chat::Message::from_role_and_content: builds one conversation
/// message of the given role holding the given text.
#[verifier::external_body]
pub fn conversation_message(role: Role, text: &str) -> (m: HarmonyChatMessage)
    requires
        role != Role::Unknown,
{
    let hr = match role {
        Role::User | Role::Unknown => openai_harmony::chat::Role::User,
        Role::Assistant => openai_harmony::chat::Role::Assistant,
        Role::System => openai_harmony::chat::Role::System,
        Role::Tool => openai_harmony::chat::Role::Tool,
    };
    HarmonyChatMessage::from_role_and_content(hr, text)
}

/// Relies on HarmonyEncoding::render_conversation_for_completion with the
/// assistant as the next turn: renders the conversation into tokens. The
/// token values depend on the loaded vocabulary, so nothing is promised of
/// them.
#[verifier::external_body]
pub fn render_completion_tokens(
    enc: &openai_harmony::HarmonyEncoding,
    msgs: &Vec<HarmonyChatMessage>,
) -> Option<Vec<u32>> {
    enc.render_conversation_for_completion(msgs, openai_harmony::chat::Role::Assistant, None).ok()
}

/// Relies on the tokenizer's decode_utf8, reached through
/// HarmonyEncoding::tokenizer: decodes tokens back to text.
#[verifier::external_body]
pub fn tokens_to_text(enc: &openai_harmony::HarmonyEncoding, tokens: &Vec<u32>) -> Option<String> {
    enc.tokenizer().decode_utf8(tokens).ok()
}

/// Relies on the tokenizer's encode_with_special_tokens and on
/// HarmonyEncoding::parse_messages_from_completion_tokens with the
/// assistant role: tokenizes the text and parses it as a finished
/// completion, failing by `Result` on malformed or partial input. The
/// parser emits a message only after the message token or one of the stop
/// tokens (the end, call and return markers), and the tokenizer produces
/// those special tokens only from their literal substrings — so text that
/// holds none of the four literals parses to nothing.
#[verifier::external_body]
pub fn canonical_parse(enc: &openai_harmony::HarmonyEncoding, text: &str) -> (r: Option<
    Vec<HarmonyChatMessage>,
>)
    ensures
        (!contains_seq(text@, message_marker()) && !contains_seq(text@, end_marker())
            && !contains_seq(text@, call_marker()) && !contains_seq(text@, return_marker()))
            ==> (match r {
            Some(msgs) => msgs@.len() == 0,
            None => true,
        }),
{
    let tokens = enc.tokenizer().encode_with_special_tokens(text);
    enc.parse_messages_from_completion_tokens(tokens, Some(openai_harmony::chat::Role::Assistant))
        .ok()
}

/// Relies on the public channel field of chat::Message.
#[verifier::external_body]
pub fn message_channel(m: &HarmonyChatMessage) -> Option<String> {
    m.channel.clone()
}

/// Relies on the public recipient field of chat::Message.
#[verifier::external_body]
pub fn message_recipient(m: &HarmonyChatMessage) -> Option<String> {
    m.recipient.clone()
}

/// Relies on the public content field of chat::Message: hands out one entry
/// per content item, the text of a text item, nothing for any other kind.
#[verifier::external_body]
pub fn message_texts(m: &HarmonyChatMessage) -> Vec<Option<String>> {
    m.content.iter().map(
        |c|
            match c {
                openai_harmony::chat::Content::Text(t) => Some(t.text.clone()),
                _ => None,
            },
    ).collect()
}

} // verus!
