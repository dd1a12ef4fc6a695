//! The channel aggregator: scans marker-delimited text for channel sections,
//! groups content by channel label, extracts tool invocations found in
//! commentary sections, and resolves which channel becomes the message.
use vstd::prelude::*;

verus! {

use vstd::string::StrSliceExecFns;
use vstd::string::StringExecFns;
use crate::text::{
    trimmed, contains_seq, find_from, find_char_from, rfind_char, match_at, split_seq, trim_str,
    contains_pat, find_pat_from, find_char, rfind_char_exec, split_pat, str_eq, lemma_find_from,
    lemma_find_char_from, strip_cr, strip_cr_str,
};
use crate::markers::{
    channel_marker, tool_marker, final_label, analysis_label, commentary_label, default_label,
    lemma_marker_lens, channel_marker_s, tool_marker_s, final_label_s, analysis_label_s,
    commentary_label_s, default_label_s,
};
use crate::model::{
    Role, Message, MessageView, ContentItemView, ToolInputView, args_view, wf_decoded,
    text_message, tool_message,
};
use crate::args::{arg_pairs, parse_tool_arguments_str};

/// The running state of channel aggregation: one buffer per recognized
/// channel, whether an explicit final channel was seen, and the tool calls
/// recorded so far.
pub struct ChanState {
    pub final_c: Seq<char>,
    pub analysis: Seq<char>,
    pub commentary: Seq<char>,
    pub has_final: bool,
    pub tools: Seq<(Seq<char>, Seq<char>)>,
}

/// The state before any section has been processed.
pub open spec fn chan_init() -> ChanState {
    ChanState {
        final_c: Seq::empty(),
        analysis: Seq::empty(),
        commentary: Seq::empty(),
        has_final: false,
        tools: Seq::empty(),
    }
}

/// The argument text of a tool invocation: the span from the first `{` to
/// the last `}` of `remaining`, or the trimmed remainder when no such
/// balanced-looking block exists.
pub open spec fn tool_args_of(remaining: Seq<char>) -> Seq<char> {
    match find_char_from(remaining, '{', 0) {
        None => trimmed(remaining),
        Some(js) => match rfind_char(remaining, '}') {
            None => trimmed(remaining),
            Some(je) => if js <= je {
                remaining.subrange(js, je + 1)
            } else {
                trimmed(remaining)
            },
        },
    }
}

/// Routes a section with label line `line` and body `body` into the state:
/// a recognized label replaces its buffer, an unknown label appends to the
/// final buffer without marking the final channel as seen.
pub open spec fn route_section(st: ChanState, line: Seq<char>, body: Seq<char>) -> ChanState {
    if line == final_label() {
        ChanState { final_c: body, has_final: true, ..st }
    } else if line == analysis_label() {
        ChanState { analysis: body, ..st }
    } else if line == commentary_label() {
        ChanState { commentary: body, ..st }
    } else {
        ChanState { final_c: st.final_c + body, ..st }
    }
}

/// Processes a segment whose first line (ending at `p`) is followed by
/// body lines; carriage returns ending body lines are dropped. A
/// commentary section whose body carries the tool-invocation marker
/// records a tool call instead of channel content.
pub open spec fn chan_step_multi(st: ChanState, part: Seq<char>, p: int) -> ChanState {
    let line = trimmed(part.subrange(0, p));
    let body = trimmed(strip_cr(part.subrange(p + 1, part.len() as int)));
    if contains_seq(line, commentary_label()) && contains_seq(body, tool_marker()) {
        let start = find_from(body, tool_marker(), 0)->0;
        if 0 <= start && start + tool_marker().len() <= body.len() {
            let after = body.subrange(start + tool_marker().len(), body.len() as int);
            match find_char_from(after, ' ', 0) {
                None => st,
                Some(sp) => {
                    let name = after.subrange(0, sp);
                    let remaining = after.subrange(sp, after.len() as int);
                    ChanState { tools: st.tools + seq![(name, tool_args_of(remaining))], ..st }
                },
            }
        } else {
            st
        }
    } else {
        route_section(st, line, body)
    }
}

/// Processes a segment that consists of a single line: when label and
/// content share the line separated by a space, a recognized label routes
/// the content; anything else is dropped.
pub open spec fn chan_step_single(st: ChanState, part: Seq<char>) -> ChanState {
    let line = trimmed(part);
    match find_char_from(line, ' ', 0) {
        None => st,
        Some(sp) => {
            let name = line.subrange(0, sp);
            let content = trimmed(line.subrange(sp + 1, line.len() as int));
            if name == final_label() {
                ChanState { final_c: content, has_final: true, ..st }
            } else if name == analysis_label() {
                ChanState { analysis: content, ..st }
            } else if name == commentary_label() {
                ChanState { commentary: content, ..st }
            } else {
                st
            }
        },
    }
}

/// Processes one split segment. The first line is the channel label; the
/// remaining lines are the body.
pub open spec fn chan_step(st: ChanState, part: Seq<char>) -> ChanState {
    if part.len() == 0 {
        st
    } else {
        match find_char_from(part, '\n', 0) {
            Some(p) => if p + 1 < part.len() {
                chan_step_multi(st, part, p)
            } else {
                chan_step_single(st, part)
            },
            None => chan_step_single(st, part),
        }
    }
}

/// Folds the split segments left to right.
pub open spec fn chan_fold(parts: Seq<Seq<char>>) -> ChanState
    decreases parts.len(),
{
    if parts.len() == 0 {
        chan_init()
    } else {
        chan_step(chan_fold(parts.drop_last()), parts.last())
    }
}

/// Resolves the single text value of an aggregation without tool calls:
/// final-channel content when the final channel was seen and is non-empty;
/// else commentary when non-empty and different from analysis; else final
/// content when non-empty; else analysis.
pub open spec fn resolve_channel_text(st: ChanState) -> Seq<char> {
    if st.has_final && trimmed(st.final_c).len() > 0 {
        trimmed(st.final_c)
    } else if trimmed(st.commentary).len() > 0 && trimmed(st.commentary) != trimmed(st.analysis) {
        trimmed(st.commentary)
    } else if trimmed(st.final_c).len() > 0 {
        trimmed(st.final_c)
    } else {
        trimmed(st.analysis)
    }
}

/// The message an aggregation state resolves to: the first recorded tool
/// call wins; otherwise a single text item by the precedence above.
pub open spec fn chan_state_message(st: ChanState) -> MessageView {
    if st.tools.len() > 0 {
        MessageView {
            role: Role::Assistant,
            content: seq![
                ContentItemView::Tool(
                    ToolInputView { name: st.tools[0].0, arguments: arg_pairs(st.tools[0].1) },
                ),
            ],
            final_: false,
        }
    } else {
        MessageView {
            role: Role::Assistant,
            content: seq![ContentItemView::Text(resolve_channel_text(st))],
            final_: st.has_final,
        }
    }
}

/// The message decoded from channel-marker text: everything before the
/// first marker is discarded, each later segment is aggregated, and the
/// state resolves as above.
pub open spec fn channel_sections_message(s: Seq<char>) -> MessageView {
    chan_state_message(chan_fold(split_seq(s, channel_marker()).drop_first()))
}

/// If the commentary and analysis channels hold identical trimmed text, the
/// commentary buffer is suppressed: the resolution is the same as with no
/// commentary content at all.
pub proof fn lemma_commentary_dedup(st: ChanState)
    requires
        trimmed(st.commentary) == trimmed(st.analysis),
    ensures
        resolve_channel_text(st) == resolve_channel_text(
            ChanState { commentary: Seq::empty(), ..st },
        ),
{
    assert(trimmed(Seq::<char>::empty()).len() == 0);
}

/// One scanned channel section: its label and its content.
#[derive(Debug, Clone)]
pub struct ChannelSection {
    pub channel: String,
    pub content: String,
}

/// The labelled sections found scanning `s` from position `cur` on: each
/// channel marker opens a section running to the next marker; a section
/// with a newline splits into trimmed label and content, kept when both
/// are non-empty; one without becomes default-labelled trimmed content,
/// kept when non-empty.
pub open spec fn sections_from(s: Seq<char>, cur: int) -> Seq<(Seq<char>, Seq<char>)>
    decreases s.len() - cur,
{
    if !(0 <= cur <= s.len()) {
        Seq::empty()
    } else {
        match find_from(s, channel_marker(), cur) {
            None => Seq::empty(),
            Some(start) => {
                if cur <= start && 0 < channel_marker().len() && start + channel_marker().len()
                    <= s.len() {
                    let tag_end = start + channel_marker().len();
                    let content_end = match find_from(s, channel_marker(), tag_end) {
                        Some(nx) => if tag_end <= nx <= s.len() {
                            nx
                        } else {
                            s.len() as int
                        },
                        None => s.len() as int,
                    };
                    let section = s.subrange(tag_end, content_end);
                    let entry: Seq<(Seq<char>, Seq<char>)> = match find_char_from(
                        section,
                        '\n',
                        0,
                    ) {
                        Some(fl) => {
                            let name = trimmed(section.subrange(0, fl));
                            let cont = trimmed(section.subrange(fl, section.len() as int));
                            if name.len() > 0 && cont.len() > 0 {
                                seq![(name, cont)]
                            } else {
                                Seq::empty()
                            }
                        },
                        None => {
                            let t = trimmed(section);
                            if t.len() > 0 {
                                seq![(default_label(), t)]
                            } else {
                                Seq::empty()
                            }
                        },
                    };
                    entry + sections_from(s, content_end)
                } else {
                    Seq::empty()
                }
            },
        }
    }
}

/// Scans `s` for channel markers and collects the labelled sections.
pub fn extract_channel_sections_str(s: &str) -> (r: Vec<ChannelSection>)
    ensures
        r@.len() == sections_from(s@, 0).len(),
        forall|i: int|
            0 <= i < r@.len() ==> r@[i].channel@ == sections_from(s@, 0)[i].0
                && r@[i].content@ == sections_from(s@, 0)[i].1,
{
    let n = s.unicode_len();
    let mut out: Vec<ChannelSection> = Vec::new();
    let mut cur: usize = 0;
    let ghost all = sections_from(s@, 0);
    loop
        invariant_except_break
            cur <= n,
            n == s@.len(),
            all == sections_from(s@, 0),
            all =~= out@.map_values(|e: ChannelSection| (e.channel@, e.content@)) + sections_from(
                s@,
                cur as int,
            ),
        ensures
            all =~= out@.map_values(|e: ChannelSection| (e.channel@, e.content@)),
        decreases n - cur,
    {
        proof {
            lemma_marker_lens();
        }
        match find_pat_from(s, channel_marker_s(), cur) {
            None => {
                break;
            },
            Some(start) => {
                proof {
                    lemma_find_from(s@, channel_marker(), cur as int);
                }
                let tag_end = start + 11;
                let content_end: usize = match find_pat_from(s, channel_marker_s(), tag_end) {
                    Some(nx) => {
                        proof {
                            lemma_find_from(s@, channel_marker(), tag_end as int);
                        }
                        nx
                    },
                    None => n,
                };
                let section = s.substring_char(tag_end, content_end);
                let sn = section.unicode_len();
                match find_char(section, '\n', 0) {
                    Some(fl) => {
                        proof {
                            lemma_find_char_from(section@, '\n', 0);
                        }
                        let name = trim_str(section.substring_char(0, fl));
                        let cont = trim_str(section.substring_char(fl, sn));
                        if name.unicode_len() > 0 && cont.unicode_len() > 0 {
                            out.push(
                                ChannelSection {
                                    channel: name.to_owned(),
                                    content: cont.to_owned(),
                                },
                            );
                        }
                    },
                    None => {
                        let t = trim_str(section);
                        if t.unicode_len() > 0 {
                            out.push(
                                ChannelSection {
                                    channel: default_label_s().to_owned(),
                                    content: t.to_owned(),
                                },
                            );
                        }
                    },
                }
                cur = content_end;
                proof {
                    assert(all =~= out@.map_values(|e: ChannelSection| (e.channel@, e.content@))
                        + sections_from(s@, cur as int));
                }
            },
        }
    }
    proof {
        let v = out@.map_values(|e: ChannelSection| (e.channel@, e.content@));
        assert(forall|i: int| 0 <= i < out@.len() ==> v[i] == (out@[i].channel@, out@[i].content@));
    }
    out
}

/// Extracts the tool name and argument text from a commentary body known to
/// carry the tool-invocation marker, and records it.
fn record_tool_call(
    body: &str,
    tools: &mut Vec<(String, String)>,
    Ghost(st): Ghost<ChanState>,
)
    requires
        contains_seq(body@, tool_marker()),
        args_view(old(tools)@) == st.tools,
    ensures
        find_from(body@, tool_marker(), 0) matches Some(start) ==> 0 <= start && start
            + tool_marker().len() <= body@.len(),
        ({
            let start = find_from(body@, tool_marker(), 0)->0;
            let after = body@.subrange(start + tool_marker().len(), body@.len() as int);
            match find_char_from(after, ' ', 0) {
                None => args_view(final(tools)@) == st.tools && final(tools)@ == old(tools)@,
                Some(sp) => args_view(final(tools)@) == st.tools + seq![
                    (after.subrange(0, sp), tool_args_of(after.subrange(sp, after.len() as int))),
                ],
            }
        }),
{
    let n = body.unicode_len();
    let start = match find_pat_from(body, tool_marker_s(), 0) {
        Some(x) => x,
        None => {
            proof {
                assert(false);
            }
            0
        },
    };
    proof {
        lemma_find_from(body@, tool_marker(), 0);
        lemma_marker_lens();
    }
    let after = body.substring_char(start + 13, n);
    let an = after.unicode_len();
    match find_char(after, ' ', 0) {
        None => {},
        Some(sp) => {
            proof {
                lemma_find_char_from(after@, ' ', 0);
            }
            let name = after.substring_char(0, sp);
            let remaining = after.substring_char(sp, an);
            let rn = remaining.unicode_len();
            let args: &str = match find_char(remaining, '{', 0) {
                None => trim_str(remaining),
                Some(js) => match rfind_char_exec(remaining, '}') {
                    None => trim_str(remaining),
                    Some(je) => {
                        proof {
                            lemma_find_char_from(remaining@, '{', 0);
                            crate::text::lemma_rfind_char(remaining@, '}');
                        }
                        if js <= je {
                            remaining.substring_char(js, je + 1)
                        } else {
                            trim_str(remaining)
                        }
                    },
                },
            };
            tools.push((name.to_owned(), args.to_owned()));
            proof {
                assert(args_view(tools@) =~= st.tools + seq![(name@, args@)]);
            }
        },
    }
}

/// Decodes text that contains channel markers into a structured message.
pub fn parse_channel_sections_str(s: &str) -> (m: Message)
    ensures
        m@ == channel_sections_message(s@),
        wf_decoded(m@),
{
    proof {
        lemma_marker_lens();
        crate::text::lemma_split_from_len(s@, channel_marker(), 0);
    }
    let parts = split_pat(s, channel_marker_s());
    let ghost pv = split_seq(s@, channel_marker());
    let ghost segs = pv.drop_first();

    let mut final_c = String::new();
    let mut analysis = String::new();
    let mut commentary = String::new();
    let mut has_final = false;
    let mut tools: Vec<(String, String)> = Vec::new();

    let mut idx: usize = 1;
    proof {
        assert(segs.take(0) =~= Seq::<Seq<char>>::empty());
        assert(args_view(tools@) =~= chan_init().tools);
    }
    while idx < parts.len()
        invariant
            1 <= idx <= parts.len(),
            parts@.len() == pv.len(),
            pv.len() >= 1,
            forall|k: int| 0 <= k < pv.len() ==> parts@[k]@ == pv[k],
            segs == pv.drop_first(),
            ({
                let st = chan_fold(segs.take(idx - 1));
                &&& final_c@ == st.final_c
                &&& analysis@ == st.analysis
                &&& commentary@ == st.commentary
                &&& has_final == st.has_final
                &&& args_view(tools@) == st.tools
            }),
        decreases parts.len() - idx,
    {
        let ghost st = chan_fold(segs.take(idx - 1));
        let part: &str = parts[idx].as_str();
        let ghost pvw = part@;
        let n = part.unicode_len();
        if n > 0 {
            let nl = find_char(part, '\n', 0);
            let mut multiline = false;
            let mut p: usize = 0;
            match nl {
                Some(q) => {
                    proof {
                        lemma_find_char_from(part@, '\n', 0);
                    }
                    if q + 1 < n {
                        multiline = true;
                        p = q;
                    }
                },
                None => {},
            }
            if multiline {
                let line = trim_str(part.substring_char(0, p));
                let stripped = strip_cr_str(part.substring_char(p + 1, n));
                let body = trim_str(stripped.as_str());
                if contains_pat(line, commentary_label_s()) && contains_pat(
                    body,
                    tool_marker_s(),
                ) {
                    record_tool_call(body, &mut tools, Ghost(st));
                } else {
                    if str_eq(line, final_label_s()) {
                        final_c = body.to_owned();
                        has_final = true;
                    } else if str_eq(line, analysis_label_s()) {
                        analysis = body.to_owned();
                    } else if str_eq(line, commentary_label_s()) {
                        commentary = body.to_owned();
                    } else {
                        final_c.append(body);
                    }
                }
            } else {
                let line = trim_str(part);
                let ln = line.unicode_len();
                match find_char(line, ' ', 0) {
                    None => {},
                    Some(sp) => {
                        proof {
                            lemma_find_char_from(line@, ' ', 0);
                        }
                        let name = line.substring_char(0, sp);
                        let content = trim_str(line.substring_char(sp + 1, ln));
                        if str_eq(name, final_label_s()) {
                            final_c = content.to_owned();
                            has_final = true;
                        } else if str_eq(name, analysis_label_s()) {
                            analysis = content.to_owned();
                        } else if str_eq(name, commentary_label_s()) {
                            commentary = content.to_owned();
                        }
                    },
                }
            }
        }
        idx = idx + 1;
        proof {
            assert(segs.take(idx - 1).drop_last() =~= segs.take(idx - 2));
            assert(segs.take(idx - 1).last() == segs[idx - 2]);
            assert(segs[idx - 2] == pv[idx - 1]);
            assert(chan_fold(segs.take(idx - 1)) == chan_step(st, pvw));
        }
    }
    proof {
        assert(segs.take(idx - 1) =~= segs);
    }

    if tools.len() > 0 {
        let name = tools[0].0.clone();
        let parsed = parse_tool_arguments_str(tools[0].1.as_str());
        let ghost st = chan_fold(segs);
        proof {
            assert(args_view(parsed@) =~= arg_pairs(st.tools[0].1));
        }
        tool_message(name, parsed)
    } else {
        let result: String;
        let ft = trim_str(final_c.as_str());
        if has_final && ft.unicode_len() > 0 {
            result = ft.to_owned();
        } else {
            let ct = trim_str(commentary.as_str());
            let at = trim_str(analysis.as_str());
            if ct.unicode_len() > 0 && !str_eq(ct, at) {
                result = ct.to_owned();
            } else if ft.unicode_len() > 0 {
                result = ft.to_owned();
            } else {
                result = at.to_owned();
            }
        }
        text_message(result, has_final)
    }
}

} // verus!
