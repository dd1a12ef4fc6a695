//! The message-structure parser for open/message/end marker turns, and the
//! dispatcher over the marker-based decode strategies, ending in the
//! plain-text fallback.
use vstd::prelude::*;

verus! {

use vstd::string::StrSliceExecFns;
use crate::text::{
    trimmed, contains_seq, find_from, find_char_from, trim_str, contains_pat, find_pat_from,
    find_char, lemma_find_from, lemma_find_char_from,
};
use crate::markers::{
    channel_marker, start_marker, message_marker, end_marker, call_marker, return_marker,
    tool_marker, final_label, lemma_marker_lens, channel_marker_s, start_marker_s,
    message_marker_s, end_marker_s, call_marker_s, return_marker_s, tool_marker_s, final_label_s,
};
use crate::model::{
    Role, Message, MessageView, ContentItemView, ToolInputView, args_view, wf_decoded,
    text_message, tool_message,
};
use crate::args::{arg_pairs, parse_tool_arguments_str};
use crate::channels::{channel_sections_message, parse_channel_sections_str};

/// The position of a terminator, clamped into the section, or the end of
/// the section when it is absent.
pub open spec fn terminator_pos(found: Option<int>, last: int) -> int {
    match found {
        Some(i) => if 0 <= i <= last {
            i
        } else {
            last
        },
        None => last,
    }
}

/// Where the body of a structured turn ends: at the earliest of the end,
/// call and return markers, or at the end of the section when none occurs.
pub open spec fn structure_body_end(section: Seq<char>) -> int {
    let last = section.len() as int;
    let e = terminator_pos(find_from(section, end_marker(), 0), last);
    let c = terminator_pos(find_from(section, call_marker(), 0), last);
    let r = terminator_pos(find_from(section, return_marker(), 0), last);
    if e <= c && e <= r {
        e
    } else if c <= r {
        c
    } else {
        r
    }
}

/// The tool name of a structured tool call: the text after the
/// tool-invocation marker, up to the next space, else up to the next `<`,
/// else the whole trimmed remainder.
pub open spec fn structure_tool_name(s: Seq<char>) -> Seq<char> {
    let start = find_from(s, tool_marker(), 0)->0;
    if 0 <= start && start + tool_marker().len() <= s.len() {
        let after = s.subrange(start + tool_marker().len(), s.len() as int);
        match find_char_from(after, ' ', 0) {
            Some(sp) => after.subrange(0, sp),
            None => match find_char_from(after, '<', 0) {
                Some(lt) => after.subrange(0, lt),
                None => trimmed(after),
            },
        }
    } else {
        Seq::empty()
    }
}

/// The message decoded from open/message/end structured text. Without the
/// message marker, the whole trimmed input becomes non-final text. The
/// turn is final iff the input holds the literal final word or the return
/// marker.
pub open spec fn message_structure_message(s: Seq<char>) -> MessageView {
    match find_from(s, message_marker(), 0) {
        None => MessageView {
            role: Role::Assistant,
            content: seq![ContentItemView::Text(trimmed(s))],
            final_: false,
        },
        Some(ms) => {
            if 0 <= ms && ms + message_marker().len() <= s.len() {
                let section = s.subrange(ms + message_marker().len(), s.len() as int);
                let body = trimmed(section.subrange(0, structure_body_end(section)));
                if contains_seq(s, tool_marker()) {
                    MessageView {
                        role: Role::Assistant,
                        content: seq![
                            ContentItemView::Tool(
                                ToolInputView {
                                    name: structure_tool_name(s),
                                    arguments: arg_pairs(body),
                                },
                            ),
                        ],
                        final_: false,
                    }
                } else {
                    MessageView {
                        role: Role::Assistant,
                        content: seq![ContentItemView::Text(body)],
                        final_: contains_seq(s, final_label()) || contains_seq(
                            s,
                            return_marker(),
                        ),
                    }
                }
            } else {
                MessageView {
                    role: Role::Assistant,
                    content: seq![ContentItemView::Text(trimmed(s))],
                    final_: false,
                }
            }
        },
    }
}

/// The message decoded from raw marker text by the ordered strategies:
/// channel aggregation when channel markers are present, else the
/// structure parser when structure markers are present, else the whole
/// input verbatim as non-final text.
pub open spec fn manual_message(s: Seq<char>) -> MessageView {
    if contains_seq(s, channel_marker()) {
        channel_sections_message(s)
    } else if contains_seq(s, start_marker()) || contains_seq(s, message_marker()) {
        message_structure_message(s)
    } else {
        MessageView { role: Role::Assistant, content: seq![ContentItemView::Text(s)], final_: false }
    }
}

/// Text in which no marker is recognized decodes to a single text item
/// holding the input verbatim, not marked final.
pub proof fn lemma_plain_text_fallback(s: Seq<char>)
    requires
        !contains_seq(s, channel_marker()),
        !contains_seq(s, start_marker()),
        !contains_seq(s, message_marker()),
    ensures
        manual_message(s) == (MessageView {
            role: Role::Assistant,
            content: seq![ContentItemView::Text(s)],
            final_: false,
        }),
{
}

/// Decodes text that contains structure markers into a structured message.
pub fn parse_message_structure_str(s: &str) -> (m: Message)
    ensures
        m@ == message_structure_message(s@),
        wf_decoded(m@),
{
    let n = s.unicode_len();
    proof {
        lemma_marker_lens();
    }
    match find_pat_from(s, message_marker_s(), 0) {
        None => text_message(trim_str(s).to_owned(), false),
        Some(ms) => {
            proof {
                lemma_find_from(s@, message_marker(), 0);
            }
            let section = s.substring_char(ms + 11, n);
            let sn = section.unicode_len();
            let e: usize = match find_pat_from(section, end_marker_s(), 0) {
                Some(p) => {
                    proof {
                        lemma_find_from(section@, end_marker(), 0);
                    }
                    p
                },
                None => sn,
            };
            let c: usize = match find_pat_from(section, call_marker_s(), 0) {
                Some(p) => {
                    proof {
                        lemma_find_from(section@, call_marker(), 0);
                    }
                    p
                },
                None => sn,
            };
            let rt: usize = match find_pat_from(section, return_marker_s(), 0) {
                Some(p) => {
                    proof {
                        lemma_find_from(section@, return_marker(), 0);
                    }
                    p
                },
                None => sn,
            };
            let end: usize = if e <= c && e <= rt {
                e
            } else if c <= rt {
                c
            } else {
                rt
            };
            let body = trim_str(section.substring_char(0, end));
            if contains_pat(s, tool_marker_s()) {
                let start = match find_pat_from(s, tool_marker_s(), 0) {
                    Some(x) => x,
                    None => {
                        proof {
                            assert(false);
                        }
                        0
                    },
                };
                proof {
                    lemma_find_from(s@, tool_marker(), 0);
                }
                let after = s.substring_char(start + 13, n);
                let name: &str = match find_char(after, ' ', 0) {
                    Some(sp) => {
                        proof {
                            lemma_find_char_from(after@, ' ', 0);
                        }
                        after.substring_char(0, sp)
                    },
                    None => match find_char(after, '<', 0) {
                        Some(lt) => {
                            proof {
                                lemma_find_char_from(after@, '<', 0);
                            }
                            after.substring_char(0, lt)
                        },
                        None => trim_str(after),
                    },
                };
                let parsed = parse_tool_arguments_str(body);
                proof {
                    assert(args_view(parsed@) =~= arg_pairs(body@));
                }
                tool_message(name.to_owned(), parsed)
            } else {
                let is_final = contains_pat(s, final_label_s()) || contains_pat(
                    s,
                    return_marker_s(),
                );
                text_message(body.to_owned(), is_final)
            }
        },
    }
}

/// Decodes raw marker text by the ordered strategies, ending in the
/// plain-text fallback, which cannot fail.
pub fn parse_manual_str(s: &str) -> (m: Message)
    ensures
        m@ == manual_message(s@),
        wf_decoded(m@),
{
    if contains_pat(s, channel_marker_s()) {
        parse_channel_sections_str(s)
    } else if contains_pat(s, start_marker_s()) || contains_pat(s, message_marker_s()) {
        parse_message_structure_str(s)
    } else {
        text_message(s.to_owned(), false)
    }
}

} // verus!
