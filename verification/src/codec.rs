//! The codec: encoding a conversation of structured messages into wire
//! bytes through the tokenizer provider, and decoding raw model output —
//! well-formed, partial, or malformed — back into one structured message.
use vstd::prelude::*;

verus! {

use vstd::string::StrSliceExecFns;
use vstd::utf8::{valid_utf8, decode_utf8, encode_utf8, encode_utf8_valid_utf8};
use crate::model::{
    Role, Message, MessageView, ContentItem, ContentItemView, encoded_role, encode_role,
    wf_decoded, GptossError,
};
use crate::canonical::{Turn, TurnView, canonical_message, aggregate_turns};
use crate::channels::{ChannelSection, channel_sections_message, parse_channel_sections_str,
    extract_channel_sections_str, sections_from};
use crate::structure::{manual_message, parse_manual_str};
use crate::args::{arg_pairs, parse_tool_arguments_str};
use openai_harmony::chat::Message as HarmonyChatMessage;
use crate::harmony::{
    utf8_to_string, load_encoding, conversation_message, render_completion_tokens, tokens_to_text,
    canonical_parse, message_channel, message_recipient, message_texts,
};
use crate::text::contains_seq;
use crate::markers::{
    channel_marker, start_marker, message_marker, end_marker, call_marker, return_marker,
};
use crate::structure::lemma_plain_text_fallback;

/// The text turns a message contributes to the outgoing conversation: one
/// per text content item, under the message's encoded role; tool-input
/// items are not forwarded.
pub open spec fn content_turns(role: Role, content: Seq<ContentItemView>) -> Seq<(Role, Seq<char>)>
    decreases content.len(),
{
    if content.len() == 0 {
        Seq::empty()
    } else {
        content_turns(role, content.drop_last()) + (match content.last() {
            ContentItemView::Text(t) => seq![(encoded_role(role), t)],
            ContentItemView::Tool(_) => Seq::empty(),
        })
    }
}

/// The text turns of a whole conversation, in order.
pub open spec fn conversation_turns(msgs: Seq<MessageView>) -> Seq<(Role, Seq<char>)>
    decreases msgs.len(),
{
    if msgs.len() == 0 {
        Seq::empty()
    } else {
        conversation_turns(msgs.drop_last()) + content_turns(
            msgs.last().role,
            msgs.last().content,
        )
    }
}

proof fn lemma_content_turns_roles(role: Role, content: Seq<ContentItemView>)
    ensures
        forall|i: int|
            0 <= i < content_turns(role, content).len() ==> content_turns(role, content)[i].0
                != Role::Unknown,
    decreases content.len(),
{
    if content.len() > 0 {
        lemma_content_turns_roles(role, content.drop_last());
    }
}

proof fn lemma_conversation_turns_roles(msgs: Seq<MessageView>)
    ensures
        forall|i: int|
            0 <= i < conversation_turns(msgs).len() ==> conversation_turns(msgs)[i].0
                != Role::Unknown,
    decreases msgs.len(),
{
    if msgs.len() > 0 {
        lemma_conversation_turns_roles(msgs.drop_last());
        lemma_content_turns_roles(msgs.last().role, msgs.last().content);
    }
}

/// Flattens the conversation into (role, text) turns, forwarding only text
/// content and mapping the unknown role to the user role.
pub fn collect_turns(messages: &Vec<Message>) -> (r: Vec<(Role, String)>)
    ensures
        ({
            let spec = conversation_turns(messages@.map_values(|m: Message| m@));
            &&& r@.len() == spec.len()
            &&& forall|i: int|
                0 <= i < r@.len() ==> r@[i].0 == spec[i].0 && r@[i].1@ == spec[i].1
            &&& forall|i: int| 0 <= i < r@.len() ==> r@[i].0 != Role::Unknown
        }),
{
    let ghost mvs = messages@.map_values(|m: Message| m@);
    let mut r: Vec<(Role, String)> = Vec::new();
    proof {
        assert(mvs.take(0) =~= Seq::<MessageView>::empty());
    }
    let mut i: usize = 0;
    while i < messages.len()
        invariant
            i <= messages@.len(),
            mvs == messages@.map_values(|m: Message| m@),
            mvs.len() == messages@.len(),
            r@.len() == conversation_turns(mvs.take(i as int)).len(),
            forall|k: int|
                0 <= k < r@.len() ==> r@[k].0 == conversation_turns(mvs.take(i as int))[k].0
                    && r@[k].1@ == conversation_turns(mvs.take(i as int))[k].1,
        decreases messages@.len() - i,
    {
        let msg = &messages[i];
        let ghost mv = mvs[i as int];
        let role = encode_role(msg.role);
        let ghost cvs = mv.content;
        let ghost base = conversation_turns(mvs.take(i as int));
        let mut j: usize = 0;
        proof {
            assert(cvs.take(0) =~= Seq::<ContentItemView>::empty());
        }
        while j < msg.content.len()
            invariant
                j <= msg.content@.len(),
                cvs == mv.content,
                mv == mvs[i as int],
                0 <= i < mvs.len(),
                cvs.len() == msg.content@.len(),
                mv.role == msg.role,
                forall|k: int| 0 <= k < cvs.len() ==> cvs[k] == msg.content@[k]@,
                role == encoded_role(msg.role),
                base == conversation_turns(mvs.take(i as int)),
                r@.len() == base.len() + content_turns(mv.role, cvs.take(j as int)).len(),
                forall|k: int|
                    0 <= k < r@.len() ==> r@[k].0 == (base + content_turns(
                        mv.role,
                        cvs.take(j as int),
                    ))[k].0 && r@[k].1@ == (base + content_turns(mv.role, cvs.take(j as int)))[k].1,
            decreases msg.content@.len() - j,
        {
            let ghost bj = base + content_turns(mv.role, cvs.take(j as int));
            proof {
                assert(cvs.take(j + 1).drop_last() =~= cvs.take(j as int));
                assert(cvs.take(j + 1).last() == cvs[j as int]);
            }
            match &msg.content[j] {
                ContentItem::Text(t) => {
                    proof {
                        assert(cvs[j as int] == ContentItemView::Text(t@));
                        assert(base + content_turns(mv.role, cvs.take(j + 1)) =~= bj + seq![
                            (encoded_role(mv.role), t@),
                        ]);
                    }
                    r.push((role, t.clone()));
                },
                ContentItem::ToolInput(_) => {
                    proof {
                        assert(cvs[j as int] is Tool);
                        assert(base + content_turns(mv.role, cvs.take(j + 1)) =~= bj);
                    }
                },
            }
            j = j + 1;
        }
        i = i + 1;
        proof {
            assert(cvs.take(cvs.len() as int) =~= cvs);
            assert(mvs.take(i as int).drop_last() =~= mvs.take(i - 1));
            assert(mvs.take(i as int).last() == mv);
        }
    }
    proof {
        assert(mvs.take(mvs.len() as int) =~= mvs);
        lemma_conversation_turns_roles(mvs);
    }
    r
}

/// What a decode resolves to, given the decoded text and whatever turns
/// the canonical parse yielded: aggregation of those turns when there are
/// any, else the marker-based strategies on the text.
pub open spec fn decoded_message(text: Seq<char>, turns: Seq<TurnView>) -> MessageView {
    if turns.len() > 0 {
        canonical_message(turns)
    } else {
        manual_message(text)
    }
}

/// No marker of the wire format occurs in the text: nothing for the
/// canonical parser to recognize, and nothing for the marker-based
/// strategies either.
pub open spec fn marker_free(s: Seq<char>) -> bool {
    &&& !contains_seq(s, channel_marker())
    &&& !contains_seq(s, start_marker())
    &&& !contains_seq(s, message_marker())
    &&& !contains_seq(s, end_marker())
    &&& !contains_seq(s, call_marker())
    &&& !contains_seq(s, return_marker())
}

/// Asks the tokenizer provider to parse the text canonically, reducing
/// each parsed message to plain values. Yields nothing when the provider
/// is unavailable, the text is not a complete well-formed turn, or no
/// marker occurs in it at all.
fn canonical_turns_of(content: &str) -> (turns: Vec<Turn>)
    ensures
        marker_free(content@) ==> turns@.len() == 0,
{
    match load_encoding() {
        None => Vec::new(),
        Some(enc) => {
            match canonical_parse(&enc, content) {
                None => Vec::new(),
                Some(msgs) => {
                    let mut turns: Vec<Turn> = Vec::new();
                    let mut i: usize = 0;
                    while i < msgs.len()
                        invariant
                            turns@.len() == i,
                            i <= msgs@.len(),
                        decreases msgs@.len() - i,
                    {
                        turns.push(
                            Turn {
                                channel: message_channel(&msgs[i]),
                                recipient: message_recipient(&msgs[i]),
                                texts: message_texts(&msgs[i]),
                            },
                        );
                        i = i + 1;
                    }
                    turns
                },
            }
        },
    }
}

/// The structured-message codec for the marker-delimited wire format.
pub struct Gptoss;

impl Gptoss {
    pub fn new() -> Self {
        Gptoss
    }

    /// Encodes a conversation: only text content is forwarded, the unknown
    /// role maps to the user role, and the tokenizer provider renders the
    /// conversation for the next assistant turn. Fails when the provider
    /// cannot be initialized or rendering fails; the bytes of a success
    /// are always valid UTF-8.
    pub fn encode(&self, messages: Vec<Message>) -> (r: Result<Vec<u8>, GptossError>)
        ensures
            r matches Ok(b) ==> valid_utf8(b@),
    {
        let turns = collect_turns(&messages);
        let enc = match load_encoding() {
            None => {
                return Err(GptossError::new("Failed to load harmony encoding".to_owned()));
            },
            Some(e) => e,
        };
        let mut hmsgs: Vec<HarmonyChatMessage> = Vec::new();
        let mut i: usize = 0;
        while i < turns.len()
            invariant
                forall|k: int| 0 <= k < turns@.len() ==> turns@[k].0 != Role::Unknown,
            decreases turns@.len() - i,
        {
            hmsgs.push(conversation_message(turns[i].0, turns[i].1.as_str()));
            i = i + 1;
        }
        let tokens = match render_completion_tokens(&enc, &hmsgs) {
            None => {
                return Err(GptossError::new("Failed to render conversation".to_owned()));
            },
            Some(t) => t,
        };
        let text = match tokens_to_text(&enc, &tokens) {
            None => {
                return Err(GptossError::new("Failed to decode rendered tokens".to_owned()));
            },
            Some(s) => s,
        };
        proof {
            encode_utf8_valid_utf8(text@);
        }
        Ok(text.as_str().as_bytes_vec())
    }

    /// Decodes raw model output. It fails exactly on input that is not
    /// valid UTF-8; on any valid UTF-8 input it returns a well-formed
    /// assistant message resolved from the decoded text and whatever the
    /// canonical parse yielded. Text in which no marker occurs comes back
    /// verbatim as a single non-final text item.
    pub fn decode(&self, raw: Vec<u8>) -> (r: Result<Message, GptossError>)
        ensures
            r is Ok <==> valid_utf8(raw@),
            r matches Ok(m) ==> wf_decoded(m@) && exists|turns: Seq<TurnView>|
                m@ == decoded_message(decode_utf8(raw@), turns),
            r matches Ok(m) ==> (marker_free(decode_utf8(raw@)) ==> m@ == (MessageView {
                role: Role::Assistant,
                content: seq![ContentItemView::Text(decode_utf8(raw@))],
                final_: false,
            })),
    {
        match utf8_to_string(raw) {
            None => Err(GptossError::new("Invalid UTF-8 in raw data".to_owned())),
            Some(text) => Ok(self.parse_harmony_content(text.as_str())),
        }
    }

    /// Decodes already-validated text: the canonical parse is tried first;
    /// when it yields nothing, the marker-based strategies take over, down
    /// to the plain-text fallback, so this never fails. Marker-free text
    /// is returned verbatim as a single non-final text item.
    pub fn parse_harmony_content(&self, content: &str) -> (m: Message)
        ensures
            wf_decoded(m@),
            exists|turns: Seq<TurnView>| m@ == decoded_message(content@, turns),
            marker_free(content@) ==> m@ == (MessageView {
                role: Role::Assistant,
                content: seq![ContentItemView::Text(content@)],
                final_: false,
            }),
    {
        let turns = canonical_turns_of(content);
        if turns.len() > 0 {
            let m = aggregate_turns(&turns);
            proof {
                let ghost tvs = turns@.map_values(|t: Turn| t@);
                assert(m@ == decoded_message(content@, tvs));
            }
            m
        } else {
            let m = parse_manual_str(content);
            proof {
                let ghost tvs = Seq::<TurnView>::empty();
                assert(m@ == decoded_message(content@, tvs));
                if marker_free(content@) {
                    lemma_plain_text_fallback(content@);
                }
            }
            m
        }
    }

    /// Decodes text containing channel markers by channel aggregation.
    pub fn parse_channel_message(&self, content: &str) -> (m: Message)
        ensures
            m@ == channel_sections_message(content@),
            wf_decoded(m@),
    {
        parse_channel_sections_str(content)
    }

    /// Flattens raw tool-argument text into ordered key/value pairs; never
    /// fails.
    pub fn parse_tool_arguments(&self, args_json: &str) -> (r: Vec<(String, String)>)
        ensures
            r@.len() == arg_pairs(args_json@).len(),
            forall|i: int|
                0 <= i < r@.len() ==> r@[i].0@ == arg_pairs(args_json@)[i].0 && r@[i].1@
                    == arg_pairs(args_json@)[i].1,
    {
        parse_tool_arguments_str(args_json)
    }

    /// Scans text for channel markers and collects the labelled sections.
    pub fn extract_channel_sections(&self, content: &str) -> (r: Vec<ChannelSection>)
        ensures
            r@.len() == sections_from(content@, 0).len(),
            forall|i: int|
                0 <= i < r@.len() ==> r@[i].channel@ == sections_from(content@, 0)[i].0
                    && r@[i].content@ == sections_from(content@, 0)[i].1,
    {
        extract_channel_sections_str(content)
    }
}

} // verus!
