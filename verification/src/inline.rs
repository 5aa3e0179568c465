//! The inline transformer: rewrites headings and list markers, substitutes
//! the inline spans (bold, italic, link, horizontal rule, inline code), and
//! blanks residual fence lines. Every substitution scans left to right and
//! takes the shortest (lazy) match, replacing each non-overlapping occurrence.

use vstd::prelude::*;
use crate::text::{
    leading_count, starts_with, first_occurrence, trim_cr, chars_to_string, string_to_chars,
    match_at, find_from, push_all, subvec, trim_cr_chars, lemma_leading_count_from_scan,
    lemma_trim_cr_idempotent,
};
use crate::classify::{ordered_marker_end, ordered_marker_end_chars, is_fence_chars};

verus! {

/// The digit character of a heading level between one and six.
pub open spec fn digit_char(n: int) -> char {
    if n == 1 {
        '1'
    } else if n == 2 {
        '2'
    } else if n == 3 {
        '3'
    } else if n == 4 {
        '4'
    } else if n == 5 {
        '5'
    } else {
        '6'
    }
}

/// The heading rewrite: after trimming trailing carriage returns, a line
/// opening with one to six `#` characters followed by a space becomes
/// `<hN>content</hN>`; any other line is returned trimmed but unchanged.
pub open spec fn spec_parse_headings(s: Seq<char>) -> Seq<char> {
    let t = trim_cr(s);
    let n = leading_count(t, |c: char| c == '#');
    if 1 <= n <= 6 && n < t.len() && t[n] == ' ' {
        "<h"@ + seq![digit_char(n)] + ">"@ + t.subrange(n + 1, t.len() as int) + "</h"@ + seq![
            digit_char(n),
        ] + ">"@
    } else {
        t
    }
}

/// The list-item rewrite: a line opening with `"- "` is unwrapped to
/// `<li>content</li>`; otherwise a line opening with an ordered-list marker
/// (alphanumeric run, period, space) is unwrapped the same way; any other
/// line is returned trimmed but unchanged.
pub open spec fn spec_parse_lists(s: Seq<char>) -> Seq<char> {
    let t = trim_cr(s);
    let u = if starts_with(t, "- "@) {
        "<li>"@ + t.subrange(2, t.len() as int) + "</li>"@
    } else {
        t
    };
    match ordered_marker_end(u) {
        Some(e) => "<li>"@ + u.subrange(e, u.len() as int) + "</li>"@,
        None => u,
    }
}

/// Lazy pairwise replacement: scanning left to right, each occurrence of the
/// opening delimiter `o` that is followed by the closing delimiter `c` is
/// rewritten to `a`, the shortest enclosed text, then `b`; scanning resumes
/// after the consumed closing delimiter.
pub open spec fn replace_pairs(
    s: Seq<char>,
    o: Seq<char>,
    c: Seq<char>,
    a: Seq<char>,
    b: Seq<char>,
) -> Seq<char>
    decreases s.len() when 1 <= o.len() && 1 <= c.len()
{
    if s.len() == 0 {
        s
    } else if starts_with(s, o) && first_occurrence(s, c, o.len() as int) is Some && o.len()
        <= first_occurrence(s, c, o.len() as int).unwrap() && first_occurrence(
        s,
        c,
        o.len() as int,
    ).unwrap() + c.len() <= s.len() {
        let j = first_occurrence(s, c, o.len() as int).unwrap();
        a + s.subrange(o.len() as int, j) + b + replace_pairs(
            s.subrange(j + c.len(), s.len() as int),
            o,
            c,
            a,
            b,
        )
    } else {
        seq![s[0]] + replace_pairs(s.drop_first(), o, c, a, b)
    }
}

/// Lazy link replacement: each `[text](target)` occurrence, with the
/// shortest text and target, becomes `<a href="target">text</a>`.
pub open spec fn replace_links(s: Seq<char>) -> Seq<char>
    decreases s.len(),
{
    if s.len() == 0 {
        s
    } else if s[0] == '[' && replace_links_match(s) is Some {
        let (j, q) = replace_links_match(s).unwrap();
        "<a href=\""@ + s.subrange(j + 2, q) + "\">"@ + s.subrange(1, j) + "</a>"@ + replace_links(
            s.subrange(q + 1, s.len() as int),
        )
    } else {
        seq![s[0]] + replace_links(s.drop_first(), )
    }
}

/// The two positions a link match rests on: the first `](` after the opening
/// bracket and the first `)` after that, if both exist.
pub open spec fn replace_links_match(s: Seq<char>) -> Option<(int, int)> {
    if first_occurrence(s, "]("@, 1) is Some {
        let j = first_occurrence(s, "]("@, 1).unwrap();
        if 1 <= j && j + 2 <= s.len() && first_occurrence(s, ")"@, j + 2) is Some {
            let q = first_occurrence(s, ")"@, j + 2).unwrap();
            if j + 2 <= q && q + 1 <= s.len() {
                Some((j, q))
            } else {
                None
            }
        } else {
            None
        }
    } else {
        None
    }
}

/// The horizontal-rule rewrite: a line that is exactly `---` becomes `<hr/>`.
pub open spec fn spec_replace_hr(s: Seq<char>) -> Seq<char> {
    if s == "---"@ {
        "<hr/>"@
    } else {
        s
    }
}

/// All five span substitutions, in the order the grammar fixes: bold before
/// italic, then links, the horizontal rule, and inline code.
pub open spec fn spec_apply_spans(s: Seq<char>) -> Seq<char> {
    let s1 = replace_pairs(s, "**"@, "**"@, "<strong>"@, "</strong>"@);
    let s2 = replace_pairs(s1, "*"@, "*"@, "<em>"@, "</em>"@);
    let s3 = replace_links(s2);
    let s4 = spec_replace_hr(s3);
    replace_pairs(s4, "`"@, "`"@, "<code>"@, "</code>"@)
}

/// The whole per-line transformation: headings, then list markers, then the
/// inline spans; a line that still opens with a code fence afterwards is
/// blanked to empty content.
pub open spec fn spec_parse_line(s: Seq<char>) -> Seq<char> {
    let sp = spec_apply_spans(spec_parse_lists(spec_parse_headings(s)));
    if starts_with(sp, "```"@) {
        Seq::empty()
    } else {
        sp
    }
}

fn heading_chars(t: &Vec<char>) -> (r: Vec<char>)
    requires
        t@ == trim_cr(t@),
    ensures
        r@ == spec_parse_headings(t@),
{
    let n0: usize = t.len();
    let mut k: usize = 0;
    while k < n0 && t[k] == '#'
        invariant
            k <= n0,
            n0 == t@.len(),
            forall|i: int| 0 <= i < k ==> t@[i] == '#',
        decreases n0 - k,
    {
        k = k + 1;
    }
    proof {
        lemma_leading_count_from_scan(t@, |c: char| c == '#', k as int);
    }
    if 1 <= k && k < n0 && t[k] == ' ' && k <= 6 {
        let digit: char = if k == 1 {
            '1'
        } else if k == 2 {
            '2'
        } else if k == 3 {
            '3'
        } else if k == 4 {
            '4'
        } else if k == 5 {
            '5'
        } else {
            '6'
        };
        let mut r: Vec<char> = Vec::new();
        r.push('<');
        r.push('h');
        r.push(digit);
        r.push('>');
        let content = subvec(t, k + 1, n0);
        push_all(&mut r, &content);
        r.push('<');
        r.push('/');
        r.push('h');
        r.push(digit);
        r.push('>');
        proof {
            reveal_strlit("<h");
            reveal_strlit(">");
            reveal_strlit("</h");
            assert(r@ =~= spec_parse_headings(t@));
        }
        r
    } else {
        let r = subvec(t, 0, n0);
        proof {
            assert(r@ =~= t@);
        }
        r
    }
}

fn list_chars(t: &Vec<char>) -> (r: Vec<char>)
    requires
        t@ == trim_cr(t@),
    ensures
        r@ == spec_parse_lists(t@),
{
    let mut dash: Vec<char> = Vec::new();
    dash.push('-');
    dash.push(' ');
    proof {
        reveal_strlit("- ");
        assert(dash@ =~= "- "@);
    }
    let mut u: Vec<char>;
    if dash.len() <= t.len() && match_at(t, &dash, 0) {
        u = Vec::new();
        u.push('<');
        u.push('l');
        u.push('i');
        u.push('>');
        let content = subvec(t, 2, t.len());
        push_all(&mut u, &content);
        u.push('<');
        u.push('/');
        u.push('l');
        u.push('i');
        u.push('>');
        proof {
            reveal_strlit("<li>");
            reveal_strlit("</li>");
            assert(u@ =~= "<li>"@ + t@.subrange(2, t@.len() as int) + "</li>"@);
        }
    } else {
        u = subvec(t, 0, t.len());
        proof {
            assert(u@ =~= t@);
        }
    }
    match ordered_marker_end_chars(&u) {
        Some(e) => {
            let mut r: Vec<char> = Vec::new();
            r.push('<');
            r.push('l');
            r.push('i');
            r.push('>');
            let content = subvec(&u, e, u.len());
            push_all(&mut r, &content);
            r.push('<');
            r.push('/');
            r.push('l');
            r.push('i');
            r.push('>');
            proof {
                reveal_strlit("<li>");
                reveal_strlit("</li>");
                assert(r@ =~= "<li>"@ + u@.subrange(e as int, u@.len() as int) + "</li>"@);
            }
            r
        },
        None => u,
    }
}

fn replace_delims(s: &Vec<char>, o: &Vec<char>, c: &Vec<char>, a: &Vec<char>, b: &Vec<char>) -> (r:
    Vec<char>)
    requires
        1 <= o@.len(),
        1 <= c@.len(),
    ensures
        r@ == replace_pairs(s@, o@, c@, a@, b@),
    decreases s@.len(),
{
    if s.len() == 0 {
        let r: Vec<char> = Vec::new();
        proof {
            assert(r@ =~= replace_pairs(s@, o@, c@, a@, b@));
        }
        return r;
    }
    if o.len() <= s.len() && match_at(s, o, 0) {
        match find_from(s, c, o.len()) {
            Some(j) => {
                let mut r: Vec<char> = Vec::new();
                push_all(&mut r, a);
                let x = subvec(s, o.len(), j);
                push_all(&mut r, &x);
                push_all(&mut r, b);
                let rest = subvec(s, j + c.len(), s.len());
                let tail = replace_delims(&rest, o, c, a, b);
                push_all(&mut r, &tail);
                proof {
                    assert(r@ =~= replace_pairs(s@, o@, c@, a@, b@));
                }
                r
            },
            None => {
                let mut r: Vec<char> = Vec::new();
                r.push(s[0]);
                let rest = subvec(s, 1, s.len());
                let tail = replace_delims(&rest, o, c, a, b);
                push_all(&mut r, &tail);
                proof {
                    assert(rest@ =~= s@.drop_first());
                    assert(r@ =~= replace_pairs(s@, o@, c@, a@, b@));
                }
                r
            },
        }
    } else {
        let mut r: Vec<char> = Vec::new();
        r.push(s[0]);
        let rest = subvec(s, 1, s.len());
        let tail = replace_delims(&rest, o, c, a, b);
        push_all(&mut r, &tail);
        proof {
            assert(rest@ =~= s@.drop_first());
            assert(r@ =~= replace_pairs(s@, o@, c@, a@, b@));
        }
        r
    }
}

fn replace_links_chars(s: &Vec<char>) -> (r: Vec<char>)
    ensures
        r@ == replace_links(s@),
    decreases s@.len(),
{
    if s.len() == 0 {
        let r: Vec<char> = Vec::new();
        proof {
            assert(r@ =~= replace_links(s@));
        }
        return r;
    }
    let mut mid: Vec<char> = Vec::new();
    mid.push(']');
    mid.push('(');
    let mut close: Vec<char> = Vec::new();
    close.push(')');
    proof {
        reveal_strlit("](");
        reveal_strlit(")");
        assert(mid@ =~= "]("@);
        assert(close@ =~= ")"@);
    }
    if s[0] == '[' {
        match find_from(s, &mid, 1) {
            Some(j) => {
                match find_from(s, &close, j + 2) {
                    Some(q) => {
                        let mut r: Vec<char> = Vec::new();
                        let open_tag = string_to_chars("<a href=\"");
                        let mid_tag = string_to_chars("\">");
                        let close_tag = string_to_chars("</a>");
                        proof {
                            reveal_strlit("<a href=\"");
                            reveal_strlit("\">");
                            reveal_strlit("</a>");
                        }
                        push_all(&mut r, &open_tag);
                        let y = subvec(s, j + 2, q);
                        push_all(&mut r, &y);
                        push_all(&mut r, &mid_tag);
                        let x = subvec(s, 1, j);
                        push_all(&mut r, &x);
                        push_all(&mut r, &close_tag);
                        let rest = subvec(s, q + 1, s.len());
                        let tail = replace_links_chars(&rest);
                        push_all(&mut r, &tail);
                        proof {
                            assert(replace_links_match(s@) == Some((j as int, q as int)));
                            assert(r@ =~= replace_links(s@));
                        }
                        r
                    },
                    None => {
                        let mut r: Vec<char> = Vec::new();
                        r.push(s[0]);
                        let rest = subvec(s, 1, s.len());
                        let tail = replace_links_chars(&rest);
                        push_all(&mut r, &tail);
                        proof {
                            assert(replace_links_match(s@) is None);
                            assert(rest@ =~= s@.drop_first());
                            assert(r@ =~= replace_links(s@));
                        }
                        r
                    },
                }
            },
            None => {
                let mut r: Vec<char> = Vec::new();
                r.push(s[0]);
                let rest = subvec(s, 1, s.len());
                let tail = replace_links_chars(&rest);
                push_all(&mut r, &tail);
                proof {
                    assert(replace_links_match(s@) is None);
                    assert(rest@ =~= s@.drop_first());
                    assert(r@ =~= replace_links(s@));
                }
                r
            },
        }
    } else {
        let mut r: Vec<char> = Vec::new();
        r.push(s[0]);
        let rest = subvec(s, 1, s.len());
        let tail = replace_links_chars(&rest);
        push_all(&mut r, &tail);
        proof {
            assert(rest@ =~= s@.drop_first());
            assert(r@ =~= replace_links(s@));
        }
        r
    }
}

fn replace_hr_chars(s: &Vec<char>) -> (r: Vec<char>)
    ensures
        r@ == spec_replace_hr(s@),
{
    let hr = string_to_chars("---");
    proof {
        reveal_strlit("---");
    }
    if s.len() == 3 && match_at(s, &hr, 0) {
        proof {
            assert(s@ =~= "---"@);
        }
        let r = string_to_chars("<hr/>");
        proof {
            reveal_strlit("<hr/>");
        }
        r
    } else {
        let r = subvec(s, 0, s.len());
        proof {
            assert(r@ =~= s@);
            if s@ == "---"@ {
                assert(s@.len() == 3);
            }
        }
        r
    }
}

fn apply_spans_chars(s: &Vec<char>) -> (r: Vec<char>)
    ensures
        r@ == spec_apply_spans(s@),
{
    let bold_o = string_to_chars("**");
    let em_o = string_to_chars("*");
    let code_o = string_to_chars("`");
    let bold_a = string_to_chars("<strong>");
    let bold_b = string_to_chars("</strong>");
    let em_a = string_to_chars("<em>");
    let em_b = string_to_chars("</em>");
    let code_a = string_to_chars("<code>");
    let code_b = string_to_chars("</code>");
    proof {
        reveal_strlit("**");
        reveal_strlit("*");
        reveal_strlit("`");
        reveal_strlit("<strong>");
        reveal_strlit("</strong>");
        reveal_strlit("<em>");
        reveal_strlit("</em>");
        reveal_strlit("<code>");
        reveal_strlit("</code>");
    }
    let s1 = replace_delims(s, &bold_o, &bold_o, &bold_a, &bold_b);
    let s2 = replace_delims(&s1, &em_o, &em_o, &em_a, &em_b);
    let s3 = replace_links_chars(&s2);
    let s4 = replace_hr_chars(&s3);
    replace_delims(&s4, &code_o, &code_o, &code_a, &code_b)
}

/// Rewrites one line's heading marker, if any, into an HTML heading.
pub fn parse_headings(line: &str) -> (r: String)
    ensures
        r@ == spec_parse_headings(line@),
{
    let v = string_to_chars(line);
    let t = trim_cr_chars(&v);
    proof {
        lemma_trim_cr_idempotent(v@);
    }
    let h = heading_chars(&t);
    chars_to_string(&h)
}

/// Rewrites one line's list marker, if any, into an HTML list item.
pub fn parse_lists(line: &str) -> (r: String)
    ensures
        r@ == spec_parse_lists(line@),
{
    let v = string_to_chars(line);
    let t = trim_cr_chars(&v);
    proof {
        lemma_trim_cr_idempotent(v@);
    }
    let l = list_chars(&t);
    chars_to_string(&l)
}

/// The whole per-line transformation: heading and list rewrites, the five
/// inline-span substitutions in their fixed order, and the residual-fence
/// blanking.
pub fn parse_line(line: &str) -> (r: String)
    ensures
        r@ == spec_parse_line(line@),
{
    let v = string_to_chars(line);
    let t = trim_cr_chars(&v);
    proof {
        lemma_trim_cr_idempotent(v@);
    }
    let h = heading_chars(&t);
    let t2 = trim_cr_chars(&h);
    proof {
        lemma_trim_cr_idempotent(h@);
        assert(spec_parse_lists(t2@) == spec_parse_lists(h@));
    }
    let l = list_chars(&t2);
    let sp = apply_spans_chars(&l);
    if is_fence_chars(&sp) {
        let r = String::new();
        proof {
            assert(r@ =~= Seq::<char>::empty());
        }
        r
    } else {
        chars_to_string(&sp)
    }
}

} // verus!
