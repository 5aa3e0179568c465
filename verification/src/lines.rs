//! The line loader: splits raw input text into an ordered sequence of logical
//! lines. Lines are newline-delimited; trailing carriage returns stay with
//! their line for later trimming. A final fragment without a newline is kept
//! only when it is non-empty.

use vstd::prelude::*;
use crate::text::{string_to_chars, chars_to_string};

verus! {

/// The lines of `text` given the characters `cur` already read of the
/// current line: a newline ends the current line; at the end of the text a
/// non-empty current line is kept.
pub open spec fn split_acc(text: Seq<char>, cur: Seq<char>) -> Seq<Seq<char>>
    decreases text.len(),
{
    if text.len() == 0 {
        if cur.len() == 0 {
            Seq::empty()
        } else {
            seq![cur]
        }
    } else if text[0] == '\n' {
        seq![cur] + split_acc(text.drop_first(), Seq::empty())
    } else {
        split_acc(text.drop_first(), cur.push(text[0]))
    }
}

/// The ordered line sequence of a raw input text.
pub open spec fn spec_split_lines(text: Seq<char>) -> Seq<Seq<char>> {
    split_acc(text, Seq::empty())
}

/// Splits raw text into its logical lines.
pub fn split_lines(text: &str) -> (r: Vec<String>)
    ensures
        r@.map_values(|l: String| l@) == spec_split_lines(text@),
{
    let v = string_to_chars(text);
    let mut lines: Vec<String> = Vec::new();
    let mut cur: Vec<char> = Vec::new();
    let mut i: usize = 0;
    proof {
        assert(v@.subrange(0, v@.len() as int) =~= v@);
    }
    while i < v.len()
        invariant
            i <= v@.len(),
            v@ == text@,
            spec_split_lines(text@) == lines@.map_values(|l: String| l@) + split_acc(
                v@.subrange(i as int, v@.len() as int),
                cur@,
            ),
        decreases v@.len() - i,
    {
        let ghost suffix = v@.subrange(i as int, v@.len() as int);
        let c = v[i];
        if c == '\n' {
            let line = chars_to_string(&cur);
            lines.push(line);
            cur = Vec::new();
        } else {
            cur.push(c);
        }
        i = i + 1;
        proof {
            assert(suffix.drop_first() =~= v@.subrange(i as int, v@.len() as int));
            assert(lines@.map_values(|l: String| l@) + split_acc(
                v@.subrange(i as int, v@.len() as int),
                cur@,
            ) =~= spec_split_lines(text@));
        }
    }
    proof {
        assert(v@.subrange(i as int, v@.len() as int) =~= Seq::<char>::empty());
    }
    if cur.len() > 0 {
        let line = chars_to_string(&cur);
        lines.push(line);
    }
    proof {
        assert(lines@.map_values(|l: String| l@) =~= spec_split_lines(text@));
    }
    lines
}

} // verus!
