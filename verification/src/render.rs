//! The block renderer: walks the transformed lines together with their block
//! states, groups consecutive plain lines into paragraphs, and emits list and
//! code wrapper tags at state transitions.

use vstd::prelude::*;
use crate::classify::State;
use crate::text::{push_all, string_to_chars, chars_to_string};

verus! {

/// Whether a line is rendered as paragraph text: state `Normal`, non-empty,
/// and not already a block element (it does not open with `<`).
pub open spec fn is_plain(line: Seq<char>, st: State) -> bool {
    st == State::Normal && line.len() > 0 && line[0] != '<'
}

/// The wrapper tags a state transition adds around the current line: entering
/// a list prefixes its opening tag, entering code replaces the line with
/// `<pre><code>`, and returning to `Normal` suffixes the closing tag of the
/// state that was left (for code, the line is replaced entirely).
pub open spec fn transition_text(line: Seq<char>, prev: State, st: State) -> Seq<char> {
    if prev == st {
        line
    } else {
        match st {
            State::OrderedList => "<ol>\n"@ + line,
            State::UnorderedList => "<ul>\n"@ + line,
            State::Code => "<pre><code>"@,
            State::Normal => match prev {
                State::OrderedList => line + "\n</ol>"@,
                State::UnorderedList => line + "\n</ul>"@,
                State::Code => "</code></pre>"@,
                State::Normal => line,
            },
        }
    }
}

/// The text the renderer emits from position `i` on, given the previous
/// line's state and whether a paragraph is open. Plain lines extend the open
/// paragraph (or open one) and leave the previous state untouched; any other
/// line first closes an open paragraph, then goes out wrapped by the state
/// transition and followed by a newline. A paragraph still open at the end is
/// closed without a trailing newline.
pub open spec fn render_from(
    lines: Seq<Seq<char>>,
    states: Seq<State>,
    i: int,
    prev: State,
    in_p: bool,
) -> Seq<char>
    decreases lines.len() - i when 0 <= i <= lines.len() && lines.len() == states.len()
{
    if i >= lines.len() {
        if in_p {
            "</p>"@
        } else {
            Seq::empty()
        }
    } else {
        let line = lines[i];
        let st = states[i];
        if is_plain(line, st) {
            if in_p {
                seq![' '] + line + render_from(lines, states, i + 1, prev, true)
            } else {
                "<p>"@ + line + render_from(lines, states, i + 1, prev, true)
            }
        } else {
            let para = if in_p {
                "</p>\n"@
            } else {
                Seq::empty()
            };
            para + transition_text(line, prev, st) + seq!['\n'] + render_from(
                lines,
                states,
                i + 1,
                st,
                false,
            )
        }
    }
}

/// The renderer's output for a whole document.
pub open spec fn spec_convert_lines(lines: Seq<Seq<char>>, states: Seq<State>) -> Seq<char> {
    render_from(lines, states, 0, State::Normal, false)
}

/// Renders the transformed lines and their parallel block states into the
/// HTML body text.
#[verifier::rlimit(100)]
pub fn convert_lines(lines: &Vec<String>, states: &Vec<State>) -> (r: String)
    requires
        lines@.len() == states@.len(),
    ensures
        r@ == spec_convert_lines(lines@.map_values(|l: String| l@), states@),
{
    let ghost lv = lines@.map_values(|l: String| l@);
    let mut text: Vec<char> = Vec::new();
    let mut prev: State = State::Normal;
    let mut in_p: bool = false;
    let mut i: usize = 0;
    while i < lines.len()
        invariant
            i <= lines@.len(),
            lines@.len() == states@.len(),
            lv == lines@.map_values(|l: String| l@),
            spec_convert_lines(lv, states@) == text@ + render_from(
                lv,
                states@,
                i as int,
                prev,
                in_p,
            ),
        decreases lines@.len() - i,
    {
        let line = string_to_chars(lines[i].as_str());
        proof {
            assert(line@ == lv[i as int]);
        }
        let st = states[i];
        let plain = st == State::Normal && line.len() > 0 && line[0] != '<';
        if plain {
            if in_p {
                text.push(' ');
            } else {
                let p_open = string_to_chars("<p>");
                proof {
                    reveal_strlit("<p>");
                }
                push_all(&mut text, &p_open);
                in_p = true;
            }
            push_all(&mut text, &line);
        } else {
            if in_p {
                let p_close = string_to_chars("</p>\n");
                proof {
                    reveal_strlit("</p>\n");
                }
                push_all(&mut text, &p_close);
                in_p = false;
            }
            if !(prev == st) {
                match st {
                    State::OrderedList => {
                        let tag = string_to_chars("<ol>\n");
                        proof {
                            reveal_strlit("<ol>\n");
                        }
                        push_all(&mut text, &tag);
                        push_all(&mut text, &line);
                    },
                    State::UnorderedList => {
                        let tag = string_to_chars("<ul>\n");
                        proof {
                            reveal_strlit("<ul>\n");
                        }
                        push_all(&mut text, &tag);
                        push_all(&mut text, &line);
                    },
                    State::Code => {
                        let tag = string_to_chars("<pre><code>");
                        proof {
                            reveal_strlit("<pre><code>");
                        }
                        push_all(&mut text, &tag);
                    },
                    State::Normal => {
                        match prev {
                            State::OrderedList => {
                                let tag = string_to_chars("\n</ol>");
                                proof {
                                    reveal_strlit("\n</ol>");
                                }
                                push_all(&mut text, &line);
                                push_all(&mut text, &tag);
                            },
                            State::UnorderedList => {
                                let tag = string_to_chars("\n</ul>");
                                proof {
                                    reveal_strlit("\n</ul>");
                                }
                                push_all(&mut text, &line);
                                push_all(&mut text, &tag);
                            },
                            State::Code => {
                                let tag = string_to_chars("</code></pre>");
                                proof {
                                    reveal_strlit("</code></pre>");
                                }
                                push_all(&mut text, &tag);
                            },
                            State::Normal => {
                                push_all(&mut text, &line);
                            },
                        }
                    },
                }
            } else {
                push_all(&mut text, &line);
            }
            prev = st;
            text.push('\n');
        }
        i = i + 1;
        proof {
            assert(spec_convert_lines(lv, states@) =~= text@ + render_from(
                lv,
                states@,
                i as int,
                prev,
                in_p,
            ));
        }
    }
    if in_p {
        let p_close = string_to_chars("</p>");
        proof {
            reveal_strlit("</p>");
        }
        push_all(&mut text, &p_close);
    }
    proof {
        assert(text@ =~= spec_convert_lines(lv, states@));
    }
    chars_to_string(&text)
}

} // verus!
