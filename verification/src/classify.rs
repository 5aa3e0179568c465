//! Block classification: each input line receives exactly one block state,
//! determined by three passes — an unordered-list pass, an ordered-list pass
//! that overrides it, and a code-fence pass of highest precedence that toggles
//! an "inside code" flag.

use vstd::prelude::*;
use crate::text::{
    is_alnum, leading_count, starts_with, char_is_alphanumeric, string_to_chars, match_at,
    lemma_leading_count_from_scan,
};

verus! {

/// The structural role of one input line.
#[derive(Clone, Copy, Debug, PartialEq, Eq, Structural)]
pub enum State {
    Normal,
    OrderedList,
    UnorderedList,
    Code,
}

/// Where the content of an ordered-list marker begins: the line must open
/// with at least one alphanumeric character, then a period, then a space;
/// the content starts right after that space.
pub open spec fn ordered_marker_end(s: Seq<char>) -> Option<int> {
    let k = leading_count(s, |c: char| is_alnum(c));
    if 1 <= k && k + 1 < s.len() && s[k] == '.' && s[k + 1] == ' ' {
        Some(k + 2)
    } else {
        None
    }
}

/// The state a line gets from the two list passes alone: the ordered-list
/// pass overrides the unordered-list pass, and lines matching neither stay
/// `Normal`.
pub open spec fn base_state(line: Seq<char>) -> State {
    if ordered_marker_end(line) is Some {
        State::OrderedList
    } else if starts_with(line, "- "@) {
        State::UnorderedList
    } else {
        State::Normal
    }
}

/// The states of the lines from position `i` on, given whether position `i`
/// sits inside an open code fence. An opening fence line is itself `Code`;
/// a closing fence line keeps the state the list passes gave it.
pub open spec fn classify_from(lines: Seq<Seq<char>>, i: int, inside: bool) -> Seq<State>
    decreases lines.len() - i when 0 <= i <= lines.len()
{
    if i >= lines.len() {
        Seq::empty()
    } else {
        let fence = starts_with(lines[i], "```"@);
        if fence && inside {
            seq![base_state(lines[i])] + classify_from(lines, i + 1, false)
        } else if fence || inside {
            seq![State::Code] + classify_from(lines, i + 1, true)
        } else {
            seq![base_state(lines[i])] + classify_from(lines, i + 1, false)
        }
    }
}

/// The block state of every line of the document, in order.
pub open spec fn spec_classify(lines: Seq<Seq<char>>) -> Seq<State> {
    classify_from(lines, 0, false)
}

pub proof fn lemma_classify_from_len(lines: Seq<Seq<char>>, i: int, inside: bool)
    requires
        0 <= i <= lines.len(),
    ensures
        classify_from(lines, i, inside).len() == lines.len() - i,
    decreases lines.len() - i,
{
    if i < lines.len() {
        lemma_classify_from_len(lines, i + 1, false);
        lemma_classify_from_len(lines, i + 1, true);
    }
}

/// The block-state sequence always has exactly one entry per line.
pub proof fn lemma_classify_len(lines: Seq<Seq<char>>)
    ensures
        spec_classify(lines).len() == lines.len(),
{
    lemma_classify_from_len(lines, 0, false);
}

pub(crate) fn ordered_marker_end_chars(v: &Vec<char>) -> (r: Option<usize>)
    ensures
        match r {
            Some(e) => ordered_marker_end(v@) == Some(e as int),
            None => ordered_marker_end(v@) is None,
        },
{
    let n: usize = v.len();
    let mut k: usize = 0;
    while k < n && char_is_alphanumeric(v[k])
        invariant
            k <= n,
            n == v@.len(),
            forall|i: int| 0 <= i < k ==> is_alnum(v@[i]),
        decreases n - k,
    {
        k = k + 1;
    }
    proof {
        lemma_leading_count_from_scan(v@, |c: char| is_alnum(c), k as int);
    }
    if 1 <= k && k < n && k + 1 < n && v[k] == '.' && v[k + 1] == ' ' {
        Some(k + 2)
    } else {
        None
    }
}

pub(crate) fn base_state_chars(v: &Vec<char>) -> (r: State)
    ensures
        r == base_state(v@),
{
    match ordered_marker_end_chars(v) {
        Some(_) => State::OrderedList,
        None => {
            let mut dash: Vec<char> = Vec::new();
            dash.push('-');
            dash.push(' ');
            proof {
                reveal_strlit("- ");
                assert(dash@ =~= "- "@);
            }
            if dash.len() <= v.len() && match_at(v, &dash, 0) {
                State::UnorderedList
            } else {
                State::Normal
            }
        },
    }
}

pub(crate) fn is_fence_chars(v: &Vec<char>) -> (r: bool)
    ensures
        r == starts_with(v@, "```"@),
{
    let mut fence: Vec<char> = Vec::new();
    fence.push('`');
    fence.push('`');
    fence.push('`');
    proof {
        reveal_strlit("```");
        assert(fence@ =~= "```"@);
    }
    fence.len() <= v.len() && match_at(v, &fence, 0)
}

/// Assigns each line its block state; the result is positionally aligned
/// with the input and has the same length.
pub fn classify_lines(lines: &Vec<String>) -> (r: Vec<State>)
    ensures
        r@ == spec_classify(lines@.map_values(|l: String| l@)),
        r@.len() == lines@.len(),
{
    let ghost lv = lines@.map_values(|l: String| l@);
    let mut states: Vec<State> = Vec::new();
    let mut inside: bool = false;
    let mut i: usize = 0;
    while i < lines.len()
        invariant
            i <= lines@.len(),
            lv == lines@.map_values(|l: String| l@),
            states@.len() == i,
            spec_classify(lv) == states@ + classify_from(lv, i as int, inside),
        decreases lines@.len() - i,
    {
        let v = string_to_chars(lines[i].as_str());
        proof {
            assert(v@ == lv[i as int]);
        }
        let fence = is_fence_chars(&v);
        if fence && inside {
            let st = base_state_chars(&v);
            states.push(st);
            inside = false;
        } else if fence || inside {
            states.push(State::Code);
            inside = true;
        } else {
            let st = base_state_chars(&v);
            states.push(st);
        }
        i = i + 1;
        proof {
            assert(spec_classify(lv) =~= states@ + classify_from(lv, i as int, inside));
        }
    }
    proof {
        assert(classify_from(lv, i as int, inside) =~= Seq::<State>::empty());
        assert(states@ =~= spec_classify(lv));
        lemma_classify_len(lv);
    }
    states
}

} // verus!
