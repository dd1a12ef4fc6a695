//! The argument parser: flattens raw tool-argument text that resembles a
//! single-level JSON object into ordered key/value string pairs, with a
//! raw-passthrough fallback. It never fails.
use vstd::prelude::*;

verus! {

use vstd::string::StrSliceExecFns;
use crate::text::{
    trimmed, trim_by, trim_start_by, trim_end_by, char_pred, find_char_from, split_seq, trim_str,
    trim_char_start, trim_char_end, trim_char_both, find_char, split_pat,
};
use crate::markers::{raw_key, json_key};

/// A key or value with whitespace, then double quotes, then single quotes
/// trimmed from both ends.
pub open spec fn strip_quotes(s: Seq<char>) -> Seq<char> {
    trim_by(trim_by(trimmed(s), char_pred('"')), char_pred('\''))
}

/// The pair a single comma-separated piece contributes: the part before the
/// first colon is the key, the rest the value; a piece without a colon, or
/// with an empty key, contributes nothing.
pub open spec fn piece_pairs(p: Seq<char>) -> Seq<(Seq<char>, Seq<char>)> {
    match find_char_from(p, ':', 0) {
        None => seq![],
        Some(cp) => {
            let key = strip_quotes(p.subrange(0, cp));
            let value = strip_quotes(p.subrange(cp + 1, p.len() as int));
            if key.len() > 0 {
                seq![(key, value)]
            } else {
                seq![]
            }
        },
    }
}

/// The pairs contributed by a sequence of pieces, in order.
pub open spec fn pieces_pairs(ps: Seq<Seq<char>>) -> Seq<(Seq<char>, Seq<char>)>
    decreases ps.len(),
{
    if ps.len() == 0 {
        seq![]
    } else {
        pieces_pairs(ps.drop_last()) + piece_pairs(ps.last())
    }
}

/// What the argument parser returns for raw argument text `args`.
///
/// Text that does not look like an object becomes a single raw-passthrough
/// pair; object text from which no pair could be read — an empty object
/// included — becomes a single passthrough pair under the json key.
pub open spec fn arg_pairs(args: Seq<char>) -> Seq<(Seq<char>, Seq<char>)> {
    let t = trimmed(args);
    if t.len() == 0 || t[0] != '{' {
        seq![(raw_key(), args)]
    } else {
        let inner = trim_end_by(trim_start_by(t, char_pred('{')), char_pred('}'));
        let parsed = pieces_pairs(split_seq(inner, ","@));
        if parsed.len() == 0 {
            seq![(json_key(), args)]
        } else {
            parsed
        }
    }
}

/// Trims whitespace, double quotes, then single quotes from both ends.
fn strip_quotes_exec<'a>(s: &'a str) -> (r: &'a str)
    ensures
        r@ == strip_quotes(s@),
{
    trim_char_both(trim_char_both(trim_str(s), '"'), '\'')
}

/// Flattens raw argument text into ordered key/value string pairs.
///
/// This never fails: text that is not an object comes back as a single
/// passthrough pair.
pub fn parse_tool_arguments_str(args_json: &str) -> (r: Vec<(String, String)>)
    ensures
        r@.len() == arg_pairs(args_json@).len(),
        forall|i: int|
            0 <= i < r@.len() ==> r@[i].0@ == arg_pairs(args_json@)[i].0 && r@[i].1@ == arg_pairs(
                args_json@,
            )[i].1,
{
    let t = trim_str(args_json);
    let tn = t.unicode_len();
    if tn == 0 || t.get_char(0) != '{' {
        let mut r: Vec<(String, String)> = Vec::new();
        r.push(("raw".to_owned(), args_json.to_owned()));
        proof {
            reveal_strlit("raw");
        }
        return r;
    }
    let inner = trim_char_end(trim_char_start(t, '{'), '}');
    proof {
        reveal_strlit(",");
    }
    let pieces = split_pat(inner, ",");
    let ghost ps = split_seq(inner@, ","@);
    let mut out: Vec<(String, String)> = Vec::new();
    let mut idx: usize = 0;
    while idx < pieces.len()
        invariant
            idx <= pieces.len(),
            pieces@.len() == ps.len(),
            forall|k: int| 0 <= k < ps.len() ==> pieces@[k]@ == ps[k],
            out@.len() == pieces_pairs(ps.take(idx as int)).len(),
            forall|i: int|
                0 <= i < out@.len() ==> out@[i].0@ == pieces_pairs(ps.take(idx as int))[i].0
                    && out@[i].1@ == pieces_pairs(ps.take(idx as int))[i].1,
        decreases pieces.len() - idx,
    {
        let piece: &str = pieces[idx].as_str();
        let n = piece.unicode_len();
        match find_char(piece, ':', 0) {
            Some(cp) => {
                proof {
                    crate::text::lemma_find_char_from(piece@, ':', 0);
                }
                let key = strip_quotes_exec(piece.substring_char(0, cp));
                let value = strip_quotes_exec(piece.substring_char(cp + 1, n));
                if key.unicode_len() > 0 {
                    out.push((key.to_owned(), value.to_owned()));
                }
            },
            None => {},
        }
        idx = idx + 1;
        proof {
            assert(ps.take(idx as int).drop_last() =~= ps.take(idx - 1));
            assert(ps.take(idx as int).last() == ps[idx - 1]);
        }
    }
    proof {
        assert(ps.take(ps.len() as int) =~= ps);
    }
    if out.len() == 0 {
        let mut r: Vec<(String, String)> = Vec::new();
        r.push(("json".to_owned(), args_json.to_owned()));
        proof {
            reveal_strlit("json");
        }
        return r;
    }
    out
}

} // verus!
