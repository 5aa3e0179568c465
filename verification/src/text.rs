//! Character-sequence helpers shared by the conversion pipeline: conversions
//! between strings and character vectors, prefix and substring search, and
//! leading-run counting.

use vstd::prelude::*;
use vstd::string::StrSliceExecFns;

verus! {

/// What `char::is_alphanumeric` returns; it depends on the character alone.
pub uninterp spec fn is_alnum(c: char) -> bool;

/// Relies on `char::is_alphanumeric`: whether the character is a Unicode
/// letter or number.
#[verifier::external_body]
pub(crate) fn char_is_alphanumeric(c: char) -> (r: bool)
    ensures
        r == is_alnum(c),
{
    c.is_alphanumeric()
}

/// Relies on `Iterator::collect` for `String`: the resulting string holds
/// exactly the characters of the vector, in order.
#[verifier::external_body]
pub(crate) fn chars_to_string(v: &Vec<char>) -> (r: String)
    ensures
        r@ == v@,
{
    v.iter().collect()
}

pub(crate) fn string_to_chars(s: &str) -> (r: Vec<char>)
    ensures
        r@ == s@,
{
    let n = s.unicode_len();
    let mut v: Vec<char> = Vec::new();
    let mut i: usize = 0;
    while i < n
        invariant
            i <= n,
            n == s@.len(),
            v@ == s@.subrange(0, i as int),
        decreases n - i,
    {
        let c = s.get_char(i);
        v.push(c);
        i = i + 1;
        proof {
            assert(v@ =~= s@.subrange(0, i as int));
        }
    }
    proof {
        assert(v@ =~= s@);
    }
    v
}

pub(crate) fn push_all(dst: &mut Vec<char>, src: &Vec<char>)
    ensures
        final(dst)@ == old(dst)@ + src@,
{
    let mut i: usize = 0;
    while i < src.len()
        invariant
            i <= src@.len(),
            dst@ == old(dst)@ + src@.subrange(0, i as int),
        decreases src@.len() - i,
    {
        dst.push(src[i]);
        i = i + 1;
        proof {
            assert(dst@ =~= old(dst)@ + src@.subrange(0, i as int));
        }
    }
    proof {
        assert(dst@ =~= old(dst)@ + src@);
    }
}

pub(crate) fn subvec(s: &Vec<char>, from: usize, to: usize) -> (r: Vec<char>)
    requires
        from <= to <= s@.len(),
    ensures
        r@ == s@.subrange(from as int, to as int),
{
    let mut r: Vec<char> = Vec::new();
    let mut i: usize = from;
    while i < to
        invariant
            from <= i <= to <= s@.len(),
            r@ == s@.subrange(from as int, i as int),
        decreases to - i,
    {
        r.push(s[i]);
        i = i + 1;
        proof {
            assert(r@ =~= s@.subrange(from as int, i as int));
        }
    }
    r
}

/// Whether `p` is a prefix of `s`.
pub open spec fn starts_with(s: Seq<char>, p: Seq<char>) -> bool {
    p.len() <= s.len() && s.subrange(0, p.len() as int) == p
}

pub(crate) fn match_at(s: &Vec<char>, pat: &Vec<char>, j: usize) -> (r: bool)
    requires
        j + pat@.len() <= s@.len(),
    ensures
        r == (s@.subrange(j as int, j as int + pat@.len() as int) == pat@),
{
    let n: usize = s.len();
    let mut k: usize = 0;
    while k < pat.len()
        invariant
            k <= pat@.len(),
            j + pat@.len() <= s@.len(),
            n == s@.len(),
            forall|t: int| 0 <= t < k ==> s@[j + t] == pat@[t],
        decreases pat@.len() - k,
    {
        if s[j + k] != pat[k] {
            proof {
                let ki = k as int;
                assert(s@.subrange(j as int, j as int + pat@.len() as int)[ki] != pat@[ki]);
            }
            return false;
        }
        k = k + 1;
    }
    proof {
        assert(s@.subrange(j as int, j as int + pat@.len() as int) =~= pat@);
    }
    true
}

pub(crate) fn starts_with_chars(s: &Vec<char>, p: &Vec<char>) -> (r: bool)
    ensures
        r == starts_with(s@, p@),
{
    if p.len() > s.len() {
        return false;
    }
    match_at(s, p, 0)
}

/// The least index `j >= from` at which `pat` occurs inside `s`, if any.
pub open spec fn first_occurrence(s: Seq<char>, pat: Seq<char>, from: int) -> Option<int>
    decreases s.len() - from when 0 <= from && 1 <= pat.len()
{
    if from + pat.len() > s.len() {
        None
    } else if s.subrange(from, from + pat.len() as int) == pat {
        Some(from)
    } else {
        first_occurrence(s, pat, from + 1)
    }
}

pub proof fn lemma_first_occurrence_bounds(s: Seq<char>, pat: Seq<char>, from: int)
    requires
        0 <= from,
        1 <= pat.len(),
        first_occurrence(s, pat, from) is Some,
    ensures
        from <= first_occurrence(s, pat, from).unwrap(),
        first_occurrence(s, pat, from).unwrap() + pat.len() <= s.len(),
    decreases s.len() - from,
{
    if from + pat.len() > s.len() {
    } else if s.subrange(from, from + pat.len() as int) == pat {
    } else {
        lemma_first_occurrence_bounds(s, pat, from + 1);
    }
}

pub(crate) fn find_from(s: &Vec<char>, pat: &Vec<char>, from: usize) -> (r: Option<usize>)
    requires
        from <= s@.len(),
        1 <= pat@.len(),
    ensures
        match r {
            Some(j) => first_occurrence(s@, pat@, from as int) == Some(j as int) && from <= j && j
                + pat@.len() <= s@.len(),
            None => first_occurrence(s@, pat@, from as int) is None,
        },
{
    if pat.len() > s.len() {
        return None;
    }
    let n: usize = s.len();
    let limit: usize = n - pat.len();
    if from > limit {
        return None;
    }
    let mut j: usize = from;
    while j <= limit
        invariant
            from <= j,
            j <= limit + 1,
            n == s@.len(),
            limit + pat@.len() == s@.len(),
            1 <= pat@.len(),
            first_occurrence(s@, pat@, from as int) == first_occurrence(s@, pat@, j as int),
        decreases limit + 1 - j,
    {
        if match_at(s, pat, j) {
            return Some(j);
        }
        j = j + 1;
    }
    None
}

/// The number of leading characters of `s` that satisfy `p`.
pub open spec fn leading_count(s: Seq<char>, p: spec_fn(char) -> bool) -> int
    decreases s.len(),
{
    if s.len() > 0 && p(s[0]) {
        1 + leading_count(s.drop_first(), p)
    } else {
        0
    }
}

pub proof fn lemma_leading_count_from_scan(s: Seq<char>, p: spec_fn(char) -> bool, k: int)
    requires
        0 <= k <= s.len(),
        forall|i: int| 0 <= i < k ==> p(s[i]),
        k < s.len() ==> !p(s[k]),
    ensures
        leading_count(s, p) == k,
    decreases s.len(),
{
    if s.len() > 0 && p(s[0]) {
        assert(k >= 1);
        lemma_leading_count_from_scan(s.drop_first(), p, k - 1);
    }
}

pub proof fn lemma_leading_count_bounds(s: Seq<char>, p: spec_fn(char) -> bool)
    ensures
        0 <= leading_count(s, p) <= s.len(),
        forall|i: int| 0 <= i < leading_count(s, p) ==> p(s[i]),
        leading_count(s, p) < s.len() ==> !p(s[leading_count(s, p)]),
    decreases s.len(),
{
    if s.len() > 0 && p(s[0]) {
        lemma_leading_count_bounds(s.drop_first(), p);
        let lc = leading_count(s, p);
        assert forall|i: int| 0 <= i < lc implies p(s[i]) by {
            if i > 0 {
                assert(s.drop_first()[i - 1] == s[i]);
            }
        }
        if lc < s.len() {
            assert(s.drop_first()[lc - 1] == s[lc]);
        }
    }
}

/// `s` with every trailing carriage return removed.
pub open spec fn trim_cr(s: Seq<char>) -> Seq<char>
    decreases s.len(),
{
    if s.len() > 0 && s.last() == '\r' {
        trim_cr(s.drop_last())
    } else {
        s
    }
}

pub proof fn lemma_trim_cr_prefix(s: Seq<char>, n: int)
    requires
        0 <= n <= s.len(),
        forall|i: int| n <= i < s.len() ==> s[i] == '\r',
        n > 0 ==> s[n - 1] != '\r',
    ensures
        trim_cr(s) == s.subrange(0, n),
    decreases s.len(),
{
    if s.len() > n {
        assert(s.last() == '\r');
        lemma_trim_cr_prefix(s.drop_last(), n);
        assert(s.drop_last().subrange(0, n) =~= s.subrange(0, n));
    } else {
        assert(s.subrange(0, n) =~= s);
    }
}

pub proof fn lemma_trim_cr_idempotent(s: Seq<char>)
    ensures
        trim_cr(trim_cr(s)) == trim_cr(s),
    decreases s.len(),
{
    if s.len() > 0 && s.last() == '\r' {
        lemma_trim_cr_idempotent(s.drop_last());
    }
}

pub(crate) fn trim_cr_chars(s: &Vec<char>) -> (r: Vec<char>)
    ensures
        r@ == trim_cr(s@),
{
    let mut n: usize = s.len();
    while n > 0 && s[n - 1] == '\r'
        invariant
            n <= s@.len(),
            forall|i: int| n <= i < s@.len() ==> s@[i] == '\r',
        decreases n,
    {
        n = n - 1;
    }
    proof {
        lemma_trim_cr_prefix(s@, n as int);
    }
    subvec(s, 0, n)
}

} // verus!
