//! The literal markers of the wire format, as spec-level character sequences
//! and matching executable string slices.
use vstd::prelude::*;

verus! {

pub open spec fn channel_marker() -> Seq<char> {
    "<|channel|>"@
}

pub open spec fn start_marker() -> Seq<char> {
    "<|start|>"@
}

pub open spec fn message_marker() -> Seq<char> {
    "<|message|>"@
}

pub open spec fn end_marker() -> Seq<char> {
    "<|end|>"@
}

pub open spec fn call_marker() -> Seq<char> {
    "<|call|>"@
}

pub open spec fn return_marker() -> Seq<char> {
    "<|return|>"@
}

/// The tool-invocation marker: a recipient directive into the tool namespace.
pub open spec fn tool_marker() -> Seq<char> {
    "to=functions."@
}

/// The tool-namespace prefix a canonical recipient carries.
pub open spec fn tool_prefix() -> Seq<char> {
    "functions."@
}

pub open spec fn final_label() -> Seq<char> {
    "final"@
}

pub open spec fn analysis_label() -> Seq<char> {
    "analysis"@
}

pub open spec fn commentary_label() -> Seq<char> {
    "commentary"@
}

pub open spec fn default_label() -> Seq<char> {
    "default"@
}

pub open spec fn raw_key() -> Seq<char> {
    "raw"@
}

pub open spec fn json_key() -> Seq<char> {
    "json"@
}

/// The lengths of the markers, fixed by their literals.
pub proof fn lemma_marker_lens()
    ensures
        channel_marker().len() == 11,
        start_marker().len() == 9,
        message_marker().len() == 11,
        end_marker().len() == 7,
        call_marker().len() == 8,
        return_marker().len() == 10,
        tool_marker().len() == 13,
        tool_prefix().len() == 10,
        final_label().len() == 5,
        analysis_label().len() == 8,
        commentary_label().len() == 10,
        default_label().len() == 7,
        raw_key().len() == 3,
        json_key().len() == 4,
{
    reveal_strlit("<|channel|>");
    reveal_strlit("<|start|>");
    reveal_strlit("<|message|>");
    reveal_strlit("<|end|>");
    reveal_strlit("<|call|>");
    reveal_strlit("<|return|>");
    reveal_strlit("to=functions.");
    reveal_strlit("functions.");
    reveal_strlit("final");
    reveal_strlit("analysis");
    reveal_strlit("commentary");
    reveal_strlit("default");
    reveal_strlit("raw");
    reveal_strlit("json");
}

pub fn channel_marker_s() -> (r: &'static str)
    ensures
        r@ == channel_marker(),
{
    "<|channel|>"
}

pub fn start_marker_s() -> (r: &'static str)
    ensures
        r@ == start_marker(),
{
    "<|start|>"
}

pub fn message_marker_s() -> (r: &'static str)
    ensures
        r@ == message_marker(),
{
    "<|message|>"
}

pub fn end_marker_s() -> (r: &'static str)
    ensures
        r@ == end_marker(),
{
    "<|end|>"
}

pub fn call_marker_s() -> (r: &'static str)
    ensures
        r@ == call_marker(),
{
    "<|call|>"
}

pub fn return_marker_s() -> (r: &'static str)
    ensures
        r@ == return_marker(),
{
    "<|return|>"
}

pub fn tool_marker_s() -> (r: &'static str)
    ensures
        r@ == tool_marker(),
{
    "to=functions."
}

pub fn tool_prefix_s() -> (r: &'static str)
    ensures
        r@ == tool_prefix(),
{
    "functions."
}

pub fn final_label_s() -> (r: &'static str)
    ensures
        r@ == final_label(),
{
    "final"
}

pub fn analysis_label_s() -> (r: &'static str)
    ensures
        r@ == analysis_label(),
{
    "analysis"
}

pub fn commentary_label_s() -> (r: &'static str)
    ensures
        r@ == commentary_label(),
{
    "commentary"
}

pub fn default_label_s() -> (r: &'static str)
    ensures
        r@ == default_label(),
{
    "default"
}

pub fn raw_key_s() -> (r: &'static str)
    ensures
        r@ == raw_key(),
{
    "raw"
}

pub fn json_key_s() -> (r: &'static str)
    ensures
        r@ == json_key(),
{
    "json"
}

} // verus!
