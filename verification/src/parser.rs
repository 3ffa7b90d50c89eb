//! Recovering a JSON report from a model's free-form reply: the texts worth trying, in order.
use vstd::prelude::*;
use crate::text::{
    chars_of, find_index, find_index_from, first_index_from, first_index_of, last_index_before,
    after_last_index_of, matches_at, starts_with, string_of, sub_chars, trim,
    trim_bounds, trimmed,
};

verus! {

/// What lies between the first code fence and the next one, past a `json` language tag (and
/// its line), or past the opening line of an untagged fence; trimmed.
pub open spec fn code_fence_body(c: Seq<char>) -> Option<Seq<char>> {
    let fence = "```"@;
    let start = find_index_from(c, fence, 0);
    if start < 0 {
        None
    } else {
        let after = c.subrange(start + 3, c.len() as int);
        let nl = first_index_from(after, '\n', 0);
        let tagged = starts_with(after, "json"@);
        if tagged && nl == after.len() {
            None
        } else {
            let js = if tagged {
                nl + 1
            } else if nl < after.len() {
                nl
            } else {
                0
            };
            let body = after.subrange(js, after.len() as int);
            let end = find_index_from(body, fence, 0);
            if end < 0 {
                None
            } else {
                Some(trim(body.subrange(0, end)))
            }
        }
    }
}

/// The text from the first `{` to the last `}`, where the last comes after the first.
pub open spec fn brace_body(c: Seq<char>) -> Option<Seq<char>> {
    let start = first_index_from(c, '{', 0);
    let end = last_index_before(c, '}', c.len() as int);
    if start >= c.len() || end < 0 || end <= start {
        None
    } else {
        Some(c.subrange(start, end + 1))
    }
}

/// The texts to try to read a report from: the trimmed reply, then the body of its code
/// fence, then its outermost braces, each where there is one.
pub open spec fn report_candidates(content: Seq<char>) -> Seq<Seq<char>> {
    let t = trim(content);
    seq![t] + match code_fence_body(t) {
        Some(b) => seq![b],
        None => Seq::empty(),
    } + match brace_body(t) {
        Some(b) => seq![b],
        None => Seq::empty(),
    }
}

/// Extracts the body of a markdown code fence (```json … ``` or ``` … ```).
pub fn extract_from_code_fence(content: &str) -> (res: Option<String>)
    ensures
        match res {
            Some(s) => code_fence_body(content@) == Some(s@),
            None => code_fence_body(content@) is None,
        },
{
    let v = chars_of(content);
    let fence = chars_of("```");
    let start = match find_index(&v, &fence, 0) {
        Some(i) => i,
        None => {
            return None;
        },
    };
    proof {
        reveal_strlit("```");
    }
    assert(fence@.len() == 3);
    let vlen = v.len();
    assert(start + 3 <= vlen);
    let after = sub_chars(&v, start + 3, vlen);
    let json_tag = chars_of("json");
    let tagged = matches_at(&after, &json_tag, 0);
    let nl = first_index_of(&after, '\n', 0);
    let js = if tagged {
        if nl == after.len() {
            return None;
        }
        nl + 1
    } else if nl < after.len() {
        nl
    } else {
        0
    };
    let body = sub_chars(&after, js, after.len());
    let end = match find_index(&body, &fence, 0) {
        Some(e) => e,
        None => {
            return None;
        },
    };
    let (lo, hi) = trim_bounds(&body, 0, end);
    Some(string_of(&body, lo, hi))
}

/// Extracts the text between the first `{` and the last `}`.
pub fn extract_between_braces(content: &str) -> (res: Option<String>)
    ensures
        match res {
            Some(s) => brace_body(content@) == Some(s@) && s@.len() >= 2 && s@[0] == '{'
                && s@.last() == '}',
            None => brace_body(content@) is None,
        },
{
    let v = chars_of(content);
    let start = first_index_of(&v, '{', 0);
    if start >= v.len() {
        return None;
    }
    let end_plus = after_last_index_of(&v, '}', v.len());
    if end_plus == 0 {
        return None;
    }
    let end = end_plus - 1;
    if end <= start {
        return None;
    }
    proof {
        crate::text::lemma_first_index_bounds(v@, '{', 0);
        lemma_last_index_found(v@, '}', v@.len() as int);
    }
    let s = string_of(&v, start, end + 1);
    Some(s)
}

proof fn lemma_last_index_found(s: Seq<char>, c: char, to: int)
    requires
        0 <= to <= s.len(),
        last_index_before(s, c, to) >= 0,
    ensures
        s[last_index_before(s, c, to)] == c,
        last_index_before(s, c, to) < to,
    decreases to,
{
    if to > 0 && s[to - 1] != c {
        lemma_last_index_found(s, c, to - 1);
    }
}

/// The texts from which a report is tried, in order: the trimmed reply, its code-fence body,
/// its outermost braces.
pub fn search_report_candidates(content: &str) -> (res: Vec<String>)
    ensures
        res.deep_view() == report_candidates(content@),
{
    let t = trimmed(content);
    let fence = extract_from_code_fence(t.as_str());
    let braces = extract_between_braces(t.as_str());
    let mut res: Vec<String> = Vec::new();
    res.push(t);
    match fence {
        Some(b) => res.push(b),
        None => {},
    }
    match braces {
        Some(b) => res.push(b),
        None => {},
    }
    assert(res.deep_view() =~= report_candidates(content@));
    res
}

} // verus!
