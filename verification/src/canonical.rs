//! Aggregation of canonically parsed turns: each turn carries a channel
//! label, a recipient, and text fragments; a recipient in the tool
//! namespace records a tool call, other turns accumulate per channel, and
//! the result assembles into one structured message.
use vstd::prelude::*;

verus! {

use vstd::string::StrSliceExecFns;
use vstd::string::StringExecFns;
use crate::text::{trimmed, match_at, str_eq, trim_str, starts_with_pat};
use crate::markers::{
    tool_prefix, final_label, analysis_label, commentary_label, default_label, lemma_marker_lens,
    tool_prefix_s, final_label_s, analysis_label_s, commentary_label_s, default_label_s,
};
use crate::model::{
    Role, Message, MessageView, ContentItem, ContentItemView, ToolInputView, args_view,
    wf_decoded, tool_message,
};
use crate::args::{arg_pairs, parse_tool_arguments_str};
use crate::channels::{ChanState, chan_init};

/// One canonically parsed turn, reduced to plain values: its channel label,
/// its recipient, and its content fragments (text fragments present, other
/// content absent).
pub struct Turn {
    pub channel: Option<String>,
    pub recipient: Option<String>,
    pub texts: Vec<Option<String>>,
}

pub struct TurnView {
    pub channel: Option<Seq<char>>,
    pub recipient: Option<Seq<char>>,
    pub texts: Seq<Option<Seq<char>>>,
}

impl View for Turn {
    type V = TurnView;

    open spec fn view(&self) -> TurnView {
        TurnView {
            channel: match self.channel {
                Some(ref c) => Some(c@),
                None => None,
            },
            recipient: match self.recipient {
                Some(ref r) => Some(r@),
                None => None,
            },
            texts: self.texts@.map_values(
                |t: Option<String>|
                    match t {
                        Some(s) => Some(s@),
                        None => None,
                    },
            ),
        }
    }
}

/// The text fragments a turn contributes, in order.
pub open spec fn collect_texts(ts: Seq<Option<Seq<char>>>) -> Seq<Seq<char>>
    decreases ts.len(),
{
    if ts.len() == 0 {
        Seq::empty()
    } else {
        collect_texts(ts.drop_last()) + (match ts.last() {
            Some(t) => seq![t],
            None => Seq::empty(),
        })
    }
}

/// The items joined by a single space.
pub open spec fn join_spaces(items: Seq<Seq<char>>) -> Seq<char>
    decreases items.len(),
{
    if items.len() == 0 {
        Seq::empty()
    } else if items.len() == 1 {
        items[0]
    } else {
        join_spaces(items.drop_last()) + seq![' '] + items.last()
    }
}

/// The concatenated text content of a turn.
pub open spec fn turn_text(t: TurnView) -> Seq<char> {
    join_spaces(collect_texts(t.texts))
}

/// Accumulates text into the buffer its channel label selects; an absent
/// label counts as the default, and unrecognized labels accumulate into the
/// final buffer without marking the final channel as seen.
pub open spec fn route_channel(st: ChanState, ch: Option<Seq<char>>, text: Seq<char>) -> ChanState {
    let label = match ch {
        Some(c) => c,
        None => default_label(),
    };
    if label == final_label() {
        ChanState { final_c: st.final_c + text, has_final: true, ..st }
    } else if label == analysis_label() {
        ChanState { analysis: st.analysis + text, ..st }
    } else if label == commentary_label() {
        ChanState { commentary: st.commentary + text, ..st }
    } else {
        ChanState { final_c: st.final_c + text, ..st }
    }
}

/// Processes one turn: a recipient in the tool namespace records a tool
/// call whose arguments are the turn's text; any other turn accumulates
/// its text by channel.
pub open spec fn canon_step(st: ChanState, t: TurnView) -> ChanState {
    let text = turn_text(t);
    match t.recipient {
        Some(r) => if match_at(r, tool_prefix(), 0) {
            ChanState {
                tools: st.tools + seq![(r.subrange(tool_prefix().len() as int, r.len() as int), text)],
                ..st
            }
        } else {
            route_channel(st, t.channel, text)
        },
        None => route_channel(st, t.channel, text),
    }
}

/// Folds the turns left to right.
pub open spec fn canon_fold(turns: Seq<TurnView>) -> ChanState
    decreases turns.len(),
{
    if turns.len() == 0 {
        chan_init()
    } else {
        canon_step(canon_fold(turns.drop_last()), turns.last())
    }
}

/// The content items an aggregation without tool calls assembles, in the
/// fixed precedence order: analysis text if non-empty, then commentary
/// text if non-empty and different from analysis, then final text if
/// non-empty; one empty text item when every channel is empty.
pub open spec fn assemble_items(st: ChanState) -> Seq<ContentItemView> {
    let a = trimmed(st.analysis);
    let c = trimmed(st.commentary);
    let f = trimmed(st.final_c);
    let items0: Seq<ContentItemView> = if a.len() > 0 {
        seq![ContentItemView::Text(a)]
    } else {
        Seq::empty()
    };
    let items1: Seq<ContentItemView> = items0 + (if c.len() > 0 && c != a {
        seq![ContentItemView::Text(c)]
    } else {
        Seq::empty()
    });
    items1 + (if f.len() > 0 {
        seq![ContentItemView::Text(f)]
    } else if items1.len() == 0 {
        seq![ContentItemView::Text(Seq::<char>::empty())]
    } else {
        Seq::empty()
    })
}

/// The message an aggregation of canonical turns resolves to: the first
/// recorded tool call wins; otherwise the assembled channel items.
pub open spec fn canon_state_message(st: ChanState) -> MessageView {
    if st.tools.len() > 0 {
        MessageView {
            role: Role::Assistant,
            content: seq![
                ContentItemView::Tool(
                    ToolInputView { name: st.tools[0].0, arguments: arg_pairs(st.tools[0].1) },
                ),
            ],
            final_: false,
        }
    } else {
        MessageView {
            role: Role::Assistant,
            content: assemble_items(st),
            final_: st.has_final,
        }
    }
}

/// The message decoded from a sequence of canonically parsed turns.
pub open spec fn canonical_message(turns: Seq<TurnView>) -> MessageView {
    canon_state_message(canon_fold(turns))
}

/// If the commentary and analysis channels hold identical trimmed text,
/// the commentary item is suppressed: the assembly is the same as with no
/// commentary content at all.
pub proof fn lemma_commentary_dedup_items(st: ChanState)
    requires
        trimmed(st.commentary) == trimmed(st.analysis),
    ensures
        assemble_items(st) == assemble_items(ChanState { commentary: Seq::empty(), ..st }),
{
    assert(trimmed(Seq::<char>::empty()).len() == 0);
}

/// Joins the present text fragments of a turn with single spaces.
fn joined_text(texts: &Vec<Option<String>>, Ghost(tv): Ghost<Seq<Option<Seq<char>>>>) -> (r:
    String)
    requires
        tv.len() == texts@.len(),
        forall|k: int|
            0 <= k < tv.len() ==> tv[k] == (match texts@[k] {
                Some(s) => Some(s@),
                None => None::<Seq<char>>,
            }),
    ensures
        r@ == join_spaces(collect_texts(tv)),
{
    let mut collected: Vec<String> = Vec::new();
    let mut j: usize = 0;
    proof {
        assert(tv.take(0) =~= Seq::<Option<Seq<char>>>::empty());
    }
    while j < texts.len()
        invariant
            j <= texts@.len(),
            tv.len() == texts@.len(),
            forall|k: int|
                0 <= k < tv.len() ==> tv[k] == (match texts@[k] {
                    Some(s) => Some(s@),
                    None => None::<Seq<char>>,
                }),
            collected@.map_values(|s: String| s@) =~= collect_texts(tv.take(j as int)),
        decreases texts@.len() - j,
    {
        match &texts[j] {
            Some(t) => {
                collected.push(t.clone());
            },
            None => {},
        }
        j = j + 1;
        proof {
            assert(tv.take(j as int).drop_last() =~= tv.take(j - 1));
            assert(collected@.map_values(|s: String| s@) =~= collect_texts(tv.take(j as int)));
        }
    }
    proof {
        assert(tv.take(tv.len() as int) =~= tv);
    }
    let ghost items = collect_texts(tv);
    let mut acc = String::new();
    let mut i: usize = 0;
    while i < collected.len()
        invariant
            i <= collected@.len(),
            collected@.map_values(|s: String| s@) =~= items,
            acc@ == join_spaces(items.take(i as int)),
        decreases collected@.len() - i,
    {
        if i == 0 {
            acc = collected[0].clone();
        } else {
            acc.append(" ");
            acc.append(collected[i].as_str());
        }
        i = i + 1;
        proof {
            reveal_strlit(" ");
            assert(items.take(i as int).drop_last() =~= items.take(i - 1));
            if i > 1 {
                assert(join_spaces(items.take(i as int)) == join_spaces(items.take(i - 1)) + seq![
                    ' ',
                ] + items[i - 1]);
                assert(" "@ =~= seq![' ']);
            }
        }
    }
    proof {
        assert(items.take(items.len() as int) =~= items);
    }
    acc
}

/// Aggregates canonically parsed turns into one structured message.
pub fn aggregate_turns(turns: &Vec<Turn>) -> (m: Message)
    ensures
        m@ == canonical_message(turns@.map_values(|t: Turn| t@)),
        wf_decoded(m@),
{
    let ghost tvs = turns@.map_values(|t: Turn| t@);
    let mut final_c = String::new();
    let mut analysis = String::new();
    let mut commentary = String::new();
    let mut has_final = false;
    let mut tools: Vec<(String, String)> = Vec::new();

    proof {
        lemma_marker_lens();
        assert(tvs.take(0) =~= Seq::<TurnView>::empty());
        assert(args_view(tools@) =~= chan_init().tools);
    }
    let mut idx: usize = 0;
    while idx < turns.len()
        invariant
            idx <= turns@.len(),
            tvs == turns@.map_values(|t: Turn| t@),
            tvs.len() == turns@.len(),
            ({
                let st = canon_fold(tvs.take(idx as int));
                &&& final_c@ == st.final_c
                &&& analysis@ == st.analysis
                &&& commentary@ == st.commentary
                &&& has_final == st.has_final
                &&& args_view(tools@) == st.tools
            }),
        decreases turns@.len() - idx,
    {
        proof {
            lemma_marker_lens();
        }
        let ghost st = canon_fold(tvs.take(idx as int));
        let turn = &turns[idx];
        let ghost tw = tvs[idx as int];
        let text = joined_text(&turn.texts, Ghost(tw.texts));
        let mut is_tool = false;
        match &turn.recipient {
            Some(r) => {
                if starts_with_pat(r.as_str(), tool_prefix_s()) {
                    is_tool = true;
                    let rn = r.as_str().unicode_len();
                    let name = r.as_str().substring_char(10, rn);
                    tools.push((name.to_owned(), text.clone()));
                    proof {
                        assert(args_view(tools@) =~= st.tools + seq![(name@, text@)]);
                    }
                }
            },
            None => {},
        }
        if !is_tool {
            let label: &str = match &turn.channel {
                Some(c) => c.as_str(),
                None => default_label_s(),
            };
            if str_eq(label, final_label_s()) {
                final_c.append(text.as_str());
                has_final = true;
            } else if str_eq(label, analysis_label_s()) {
                analysis.append(text.as_str());
            } else if str_eq(label, commentary_label_s()) {
                commentary.append(text.as_str());
            } else {
                final_c.append(text.as_str());
            }
        }
        idx = idx + 1;
        proof {
            assert(tvs.take(idx as int).drop_last() =~= tvs.take(idx - 1));
            assert(tvs.take(idx as int).last() == tvs[idx - 1]);
            assert(canon_fold(tvs.take(idx as int)) == canon_step(st, tw));
        }
    }
    proof {
        assert(tvs.take(tvs.len() as int) =~= tvs);
    }

    let ghost st = canon_fold(tvs);
    if tools.len() > 0 {
        let name = tools[0].0.clone();
        let parsed = parse_tool_arguments_str(tools[0].1.as_str());
        proof {
            assert(args_view(parsed@) =~= arg_pairs(st.tools[0].1));
        }
        tool_message(name, parsed)
    } else {
        let mut content: Vec<ContentItem> = Vec::new();
        let at = trim_str(analysis.as_str());
        let ct = trim_str(commentary.as_str());
        let ft = trim_str(final_c.as_str());
        if at.unicode_len() > 0 {
            content.push(ContentItem::Text(at.to_owned()));
        }
        if ct.unicode_len() > 0 && !str_eq(ct, at) {
            content.push(ContentItem::Text(ct.to_owned()));
        }
        if ft.unicode_len() > 0 {
            content.push(ContentItem::Text(ft.to_owned()));
        } else if content.len() == 0 {
            content.push(ContentItem::Text(String::new()));
        }
        let m = Message { role: Role::Assistant, content, final_: has_final };
        proof {
            assert(m@.content =~= assemble_items(st));
        }
        m
    }
}

} // verus!
