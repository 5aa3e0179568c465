//! The whole conversion pipeline: split the raw text into lines, classify
//! them, apply the inline transformation to every line outside code blocks,
//! render the block structure, and wrap the result in the document shell.

use vstd::prelude::*;
use crate::classify::{State, classify_lines, spec_classify, lemma_classify_len};
use crate::inline::{spec_parse_line, parse_line};
use crate::lines::{split_lines, spec_split_lines};
use crate::render::{convert_lines, spec_convert_lines};
use crate::wrap::{wrap_html, spec_wrap_html};

verus! {

/// The transformed document: code lines pass through untouched, every other
/// line goes through the per-line inline transformation. Line order and line
/// count are preserved.
pub open spec fn spec_transform_lines(lines: Seq<Seq<char>>, states: Seq<State>) -> Seq<
    Seq<char>,
> {
    Seq::new(lines.len(), |i: int| {
        if states[i] == State::Code {
            lines[i]
        } else {
            spec_parse_line(lines[i])
        }
    })
}

/// Applies the inline transformation to every line not classified `Code`;
/// the result keeps the input's line order and count.
pub fn apply_inline(lines: &Vec<String>, states: &Vec<State>) -> (r: Vec<String>)
    requires
        lines@.len() == states@.len(),
    ensures
        r@.len() == lines@.len(),
        r@.map_values(|l: String| l@) == spec_transform_lines(
            lines@.map_values(|l: String| l@),
            states@,
        ),
{
    let ghost lv = lines@.map_values(|l: String| l@);
    let mut r: Vec<String> = Vec::new();
    let mut i: usize = 0;
    while i < lines.len()
        invariant
            i <= lines@.len(),
            lines@.len() == states@.len(),
            lv == lines@.map_values(|l: String| l@),
            r@.len() == i,
            forall|k: int| 0 <= k < i ==> r@[k]@ == spec_transform_lines(lv, states@)[k],
        decreases lines@.len() - i,
    {
        if states[i] == State::Code {
            r.push(lines[i].clone());
        } else {
            let t = parse_line(lines[i].as_str());
            r.push(t);
        }
        i = i + 1;
    }
    proof {
        assert(r@.map_values(|l: String| l@) =~= spec_transform_lines(lv, states@));
    }
    r
}

/// The document a raw input text converts to, given the title, the style
/// sheet text, and whether live mode is active.
pub open spec fn spec_convert_text(
    text: Seq<char>,
    title: Seq<char>,
    style: Seq<char>,
    live: bool,
) -> Seq<char> {
    let lines = spec_split_lines(text);
    let states = spec_classify(lines);
    let tlines = spec_transform_lines(lines, states);
    spec_wrap_html(spec_convert_lines(tlines, states), title, style, live)
}

/// Runs the whole conversion pipeline on one input text.
pub fn convert_text(text: &str, title: &str, style: &str, live: bool) -> (r: String)
    ensures
        r@ == spec_convert_text(text@, title@, style@, live),
{
    let lines = split_lines(text);
    let states = classify_lines(&lines);
    proof {
        lemma_classify_len(lines@.map_values(|l: String| l@));
    }
    let tlines = apply_inline(&lines, &states);
    let body = convert_lines(&tlines, &states);
    wrap_html(body.as_str(), title, style, live)
}

/// Determinism: two conversions of the same input with the same title, style
/// and mode yield the same output text.
pub proof fn lemma_convert_deterministic(
    text: Seq<char>,
    title: Seq<char>,
    style: Seq<char>,
    live: bool,
    r1: Seq<char>,
    r2: Seq<char>,
)
    requires
        r1 == spec_convert_text(text, title, style, live),
        r2 == spec_convert_text(text, title, style, live),
    ensures
        r1 == r2,
{
}

} // verus!
