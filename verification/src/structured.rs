//! The search report, assembled from the audit trail and the model's prose answer.
use vstd::prelude::*;
use vstd::utf8::encode_utf8;
use crate::json::{json_str_field, json_str_field_of};
use crate::text::{contains, lemma_filter_map_includes, lemma_join_contains, occurs_at, starts_with};
use crate::text::{
    after_last_index_of, chars_of, copy_str, first_index_from, first_index_of, first_n, join,
    join_strings, last_index_before, push_str, str_eq, string_of, strip_prefixes,
    strip_prefixes_index, sub_chars, take_chars, trim, trim_bounds, trim_end_char,
    trim_end_char_to, utf8_len_exceeds,
};
use crate::types::{
    SearchReport, SearchReportView, Source, SourceView, ToolCall, ToolCallView, ToolResult,
    ToolResultView,
};

verus! {

/// The audit trail, each call by its view.
pub open spec fn log_view(log: Seq<ToolCall>) -> Seq<ToolCallView> {
    log.map_values(|t: ToolCall| t@)
}

// ---------------------------------------------------------------------------
// Titles from URLs
// ---------------------------------------------------------------------------

/// Underscores read as spaces; hyphens stay.
pub open spec fn underscore_to_space(c: char) -> char {
    if c == '_' {
        ' '
    } else {
        c
    }
}

/// The host part of `url`: without its `https://` and `http://` prefixes, up to the first `/`.
pub open spec fn url_without_protocol(url: Seq<char>) -> Seq<char> {
    strip_prefixes(strip_prefixes(url, "https://"@), "http://"@)
}

/// A readable title for `url`: `domain — last path segment` with `_` read as spaces,
/// or the domain alone where the path has no segment.
pub open spec fn url_title(url: Seq<char>) -> Seq<char> {
    let b = url_without_protocol(url);
    let d = first_index_from(b, '/', 0);
    let domain = b.subrange(0, d);
    let path = if d < b.len() {
        b.subrange(d + 1, b.len() as int)
    } else {
        Seq::<char>::empty()
    };
    let end = trim_end_char_to(path, '/', path.len() as int);
    let start = last_index_before(path, '/', end) + 1;
    let segment = path.subrange(start, end).map_values(|c: char| underscore_to_space(c));
    if segment.len() == 0 {
        domain
    } else {
        domain + " — "@ + segment
    }
}

/// Derives a readable title from a URL:
/// `https://vitalik.ca/posts/zk-proofs` becomes `vitalik.ca — zk-proofs`.
pub fn url_to_title(url: &str) -> (res: String)
    ensures
        res@ == url_title(url@),
{
    let v = chars_of(url);
    let https = chars_of("https://");
    let http = chars_of("http://");
    let a0 = strip_prefixes_index(&v, &https, 0);
    let a = sub_chars(&v, a0, v.len());
    let b0 = strip_prefixes_index(&a, &http, 0);
    let b = sub_chars(&a, b0, a.len());
    assert(b@ == url_without_protocol(url@));
    let d = first_index_of(&b, '/', 0);
    let mut title = string_of(&b, 0, d);
    let path = if d < b.len() {
        sub_chars(&b, d + 1, b.len())
    } else {
        Vec::new()
    };
    let end = trim_end_char(&path, '/', path.len());
    let start = after_last_index_of(&path, '/', end);
    let ghost seg = path@.subrange(start as int, end as int).map_values(
        |c: char| underscore_to_space(c),
    );
    let mut segment = String::new();
    let mut i = start;
    while i < end
        invariant
            start <= i <= end <= path@.len(),
            segment@ == path@.subrange(start as int, i as int).map_values(
                |c: char| underscore_to_space(c),
            ),
        decreases end - i,
    {
        let c = path[i];
        let c2 = if c == '_' {
            ' '
        } else {
            c
        };
        segment.push(c2);
        assert(segment@ =~= path@.subrange(start as int, i + 1).map_values(
            |c: char| underscore_to_space(c),
        ));
        i = i + 1;
    }
    if start < end {
        push_str(&mut title, " — ");
        push_str(&mut title, segment.as_str());
    }
    title
}

// ---------------------------------------------------------------------------
// Key findings
// ---------------------------------------------------------------------------

pub open spec fn is_sentence_break(c: char) -> bool {
    c == '.' || c == '\n'
}

/// The pieces of `s` between sentence breaks (`.` and newline), as `split` cuts them.
pub open spec fn segments(s: Seq<char>) -> Seq<Seq<char>>
    decreases s.len(),
{
    if s.len() == 0 {
        seq![Seq::<char>::empty()]
    } else {
        let prev = segments(s.drop_last());
        if is_sentence_break(s.last()) {
            prev.push(Seq::<char>::empty())
        } else {
            prev.update(prev.len() - 1, prev.last().push(s.last()))
        }
    }
}

/// A trimmed piece that counts as a finding: longer than 40 bytes.
pub open spec fn long_sentence(seg: Seq<char>) -> Option<Seq<char>> {
    if encode_utf8(trim(seg)).len() > 40 {
        Some(trim(seg))
    } else {
        None
    }
}

pub open spec fn long_sentences() -> spec_fn(Seq<char>) -> Option<Seq<char>> {
    |seg: Seq<char>| long_sentence(seg)
}

/// The key findings of an answer: its first five sentences longer than 40 bytes once
/// trimmed, each closed by a full stop.
pub open spec fn key_findings(answer: Seq<char>) -> Seq<Seq<char>> {
    first_n(segments(answer).filter_map(long_sentences()), 5).map_values(
        |s: Seq<char>| s.push('.'),
    )
}

pub open spec fn bounds_view(v: Seq<char>, b: Seq<(usize, usize)>) -> Seq<Seq<char>> {
    b.map_values(|p: (usize, usize)| v.subrange(p.0 as int, p.1 as int))
}

/// Extracts key findings by splitting the answer into sentences and keeping the first five
/// substantive ones.
pub fn extract_key_findings(answer: &str) -> (res: Vec<String>)
    ensures
        res.deep_view() == key_findings(answer@),
{
    let v = chars_of(answer);
    let mut bounds: Vec<(usize, usize)> = Vec::new();
    let mut start: usize = 0;
    let mut i: usize = 0;
    assert(v@.subrange(0, 0) =~= Seq::<char>::empty());
    assert(bounds_view(v@, bounds@).push(v@.subrange(0, 0)) =~= segments(v@.subrange(0, 0)));
    while i < v.len()
        invariant
            0 <= start <= i <= v@.len(),
            forall|k: int|
                0 <= k < bounds@.len() ==> #[trigger] bounds@[k].0 <= bounds@[k].1 <= v@.len(),
            segments(v@.subrange(0, i as int)) == bounds_view(v@, bounds@).push(
                v@.subrange(start as int, i as int),
            ),
        decreases v@.len() - i,
    {
        let ghost pre = v@.subrange(0, i as int);
        let ghost post = v@.subrange(0, i + 1);
        assert(post.drop_last() =~= pre);
        assert(post.last() == v@[i as int]);
        let c = v[i];
        if c == '.' || c == '\n' {
            bounds.push((start, i));
            start = i + 1;
            assert(v@.subrange(start as int, i + 1) =~= Seq::<char>::empty());
            assert(segments(post) =~= bounds_view(v@, bounds@).push(
                v@.subrange(start as int, i + 1),
            ));
        } else {
            assert(v@.subrange(start as int, i as int).push(c) =~= v@.subrange(
                start as int,
                i + 1,
            ));
            assert(segments(post) =~= bounds_view(v@, bounds@).push(
                v@.subrange(start as int, i + 1),
            ));
        }
        i = i + 1;
    }
    bounds.push((start, v.len()));
    assert(v@.subrange(0, v@.len() as int) =~= v@);
    assert(segments(answer@) == bounds_view(v@, bounds@));
    let ghost segs = bounds_view(v@, bounds@);
    let mut long: Vec<String> = Vec::new();
    let mut j: usize = 0;
    assert(segs.take(0).filter_map(long_sentences()) =~= Seq::<
        Seq<char>,
    >::empty());
    while j < bounds.len()
        invariant
            0 <= j <= bounds@.len(),
            segs == bounds_view(v@, bounds@),
            forall|k: int|
                0 <= k < bounds@.len() ==> #[trigger] bounds@[k].0 <= bounds@[k].1 <= v@.len(),
            long.deep_view() == segs.take(j as int).filter_map(long_sentences()),
        decreases bounds@.len() - j,
    {
        let (lo, hi) = bounds[j];
        assert(bounds@[j as int].0 <= bounds@[j as int].1 <= v@.len());
        let (tl, th) = trim_bounds(&v, lo, hi);
        let long_enough = utf8_len_exceeds(&v, tl, th, 40);
        let t = string_of(&v, tl, th);
        let ghost seg = segs[j as int];
        assert(seg == v@.subrange(lo as int, hi as int));
        assert(segs.take(j + 1).drop_last() =~= segs.take(j as int));
        assert(segs.take(j + 1).last() == seg);
        let ghost before = long.deep_view();
        if long_enough {
            long.push(t);
            assert(long.deep_view() =~= before + seq![trim(seg)]);
        } else {
            assert(long.deep_view() =~= before);
        }
        j = j + 1;
    }
    assert(segs.take(bounds@.len() as int) =~= segs);
    let ghost longs = segs.filter_map(long_sentences());
    let n = if long.len() < 5 {
        long.len()
    } else {
        5
    };
    let mut res: Vec<String> = Vec::new();
    let mut k: usize = 0;
    while k < n
        invariant
            0 <= k <= n <= long@.len(),
            n == (if long@.len() < 5 {
                long@.len()
            } else {
                5
            }),
            long.deep_view() == longs,
            res.deep_view() == longs.subrange(0, k as int).map_values(|s: Seq<char>| s.push('.')),
        decreases n - k,
    {
        let mut f = copy_str(long[k].as_str());
        f.push('.');
        assert(longs[k as int] == long@[k as int]@);
        assert(f@ == longs[k as int].push('.'));
        assert(res.deep_view().push(f@) =~= longs.subrange(0, k + 1).map_values(
            |s: Seq<char>| s.push('.'),
        ));
        res.push(f);
        k = k + 1;
    }
    assert(first_n(longs, 5) =~= longs.subrange(0, n as int));
    res
}


// ---------------------------------------------------------------------------
// Facts drawn from the audit trail
// ---------------------------------------------------------------------------

/// The source that a call contributes: a successful `fetch_url` whose data names a
/// non-empty `url`; its snippet is the first 300 characters of the data's `content`.
pub open spec fn source_of(tc: ToolCallView) -> Option<SourceView> {
    if tc.tool_name == "fetch_url"@ {
        match tc.output {
            ToolResultView::Success { data } => {
                let url = match json_str_field(data, "url"@) {
                    Some(u) => u,
                    None => Seq::<char>::empty(),
                };
                let content = match json_str_field(data, "content"@) {
                    Some(c) => c,
                    None => Seq::<char>::empty(),
                };
                if url.len() == 0 {
                    None
                } else {
                    Some(SourceView { title: url_title(url), url, snippet: first_n(content, 300) })
                }
            },
            ToolResultView::Error { .. } => None,
        }
    } else {
        None
    }
}

pub open spec fn sources_from() -> spec_fn(ToolCallView) -> Option<SourceView> {
    |tc: ToolCallView| source_of(tc)
}

/// The search query of a `search_web` call whose input holds one.
pub open spec fn query_of(tc: ToolCallView) -> Option<Seq<char>> {
    if tc.tool_name == "search_web"@ {
        json_str_field(tc.input, "query"@)
    } else {
        None
    }
}

pub open spec fn queries_from() -> spec_fn(ToolCallView) -> Option<Seq<char>> {
    |tc: ToolCallView| query_of(tc)
}

/// `tool: message` for a call that failed with category `degraded`.
pub open spec fn limitation_of(tc: ToolCallView) -> Option<Seq<char>> {
    match tc.output {
        ToolResultView::Error { category, message } => if category == "degraded"@ {
            Some(tc.tool_name + ": "@ + message)
        } else {
            None
        },
        ToolResultView::Success { .. } => None,
    }
}

pub open spec fn limitations_from() -> spec_fn(ToolCallView) -> Option<Seq<char>> {
    |tc: ToolCallView| limitation_of(tc)
}

/// The limitations paragraph: the degraded calls, or a statement that there were none.
pub open spec fn limitations_text(log: Seq<ToolCallView>) -> Seq<char> {
    let failed = log.filter_map(limitations_from());
    if failed.len() == 0 {
        "No limitations — all sources were accessible."@
    } else {
        "Could not access: "@ + join(failed, "; "@)
    }
}

/// A successful `fetch_url` call.
pub open spec fn is_successful_fetch(tc: ToolCallView) -> bool {
    tc.tool_name == "fetch_url"@ && tc.output is Success
}

/// The number of successful `fetch_url` calls in `log`.
pub open spec fn successful_fetches(log: Seq<ToolCallView>) -> nat
    decreases log.len(),
{
    if log.len() == 0 {
        0
    } else {
        successful_fetches(log.drop_last()) + if is_successful_fetch(log.last()) {
            1nat
        } else {
            0nat
        }
    }
}

/// `high` with three or more successful fetches, `medium` with one or two, else `low`.
pub open spec fn confidence_of(log: Seq<ToolCallView>) -> Seq<char> {
    let s = successful_fetches(log);
    if s >= 3 {
        "high"@
    } else if s >= 1 {
        "medium"@
    } else {
        "low"@
    }
}

/// The report of a completed run.
pub open spec fn search_report(
    question: Seq<char>,
    answer: Seq<char>,
    log: Seq<ToolCallView>,
) -> SearchReportView {
    SearchReportView {
        question,
        answer,
        sources: log.filter_map(sources_from()),
        confidence: confidence_of(log),
        key_findings: key_findings(answer),
        search_queries: log.filter_map(queries_from()),
        limitations: limitations_text(log),
    }
}

/// Extracts sources from successful `fetch_url` calls.
pub fn extract_sources(tool_calls_log: &[ToolCall]) -> (res: Vec<Source>)
    ensures
        res@.map_values(|s: Source| s@) == log_view(tool_calls_log@).filter_map(sources_from()),
{
    let ghost lv = log_view(tool_calls_log@);
    let mut res: Vec<Source> = Vec::new();
    let mut i: usize = 0;
    assert(lv.take(0).filter_map(sources_from()) =~= Seq::<SourceView>::empty());
    while i < tool_calls_log.len()
        invariant
            0 <= i <= tool_calls_log@.len(),
            lv == log_view(tool_calls_log@),
            res@.map_values(|s: Source| s@) == lv.take(i as int).filter_map(sources_from()),
        decreases tool_calls_log@.len() - i,
    {
        let tc = &tool_calls_log[i];
        assert(lv.take(i + 1).drop_last() =~= lv.take(i as int));
        assert(lv.take(i + 1).last() == tc@);
        let ghost before = res@.map_values(|s: Source| s@);
        if str_eq(tc.tool_name.as_str(), "fetch_url") {
            match &tc.output {
                ToolResult::Success { data } => {
                    let url = match json_str_field_of(data.as_str(), "url") {
                        Some(u) => u,
                        None => String::new(),
                    };
                    if url.as_str().unicode_len() > 0 {
                        let content = match json_str_field_of(data.as_str(), "content") {
                            Some(c) => c,
                            None => String::new(),
                        };
                        let snippet = take_chars(content.as_str(), 300);
                        let title = url_to_title(url.as_str());
                        let src = Source { title, url, snippet };
                        assert(source_of(tc@) == Some(src@));
                        res.push(src);
                        assert(res@.map_values(|s: Source| s@) =~= before + seq![src@]);
                    } else {
                        assert(source_of(tc@) is None);
                        assert(res@.map_values(|s: Source| s@) =~= before);
                    }
                },
                ToolResult::Error { .. } => {
                    assert(res@.map_values(|s: Source| s@) =~= before);
                },
            }
        } else {
            assert(res@.map_values(|s: Source| s@) =~= before);
        }
        i = i + 1;
    }
    assert(lv.take(tool_calls_log@.len() as int) =~= lv);
    res
}

/// The number of successful `fetch_url` calls.
pub fn count_successful_fetches(tool_calls_log: &[ToolCall]) -> (res: usize)
    ensures
        res == successful_fetches(log_view(tool_calls_log@)),
{
    let ghost lv = log_view(tool_calls_log@);
    let mut n: usize = 0;
    let mut i: usize = 0;
    while i < tool_calls_log.len()
        invariant
            0 <= i <= tool_calls_log@.len(),
            lv == log_view(tool_calls_log@),
            n == successful_fetches(lv.take(i as int)),
            n <= i,
        decreases tool_calls_log@.len() - i,
    {
        let tc = &tool_calls_log[i];
        assert(lv.take(i + 1).drop_last() =~= lv.take(i as int));
        assert(lv.take(i + 1).last() == tc@);
        if str_eq(tc.tool_name.as_str(), "fetch_url") {
            match &tc.output {
                ToolResult::Success { .. } => {
                    n = n + 1;
                },
                ToolResult::Error { .. } => {},
            }
        }
        i = i + 1;
    }
    assert(lv.take(tool_calls_log@.len() as int) =~= lv);
    n
}

/// Derives confidence from how many sources were fetched successfully.
pub fn derive_confidence(tool_calls_log: &[ToolCall]) -> (res: String)
    ensures
        res@ == confidence_of(log_view(tool_calls_log@)),
{
    let s = count_successful_fetches(tool_calls_log);
    if s >= 3 {
        "high".to_string()
    } else if s >= 1 {
        "medium".to_string()
    } else {
        "low".to_string()
    }
}

/// The search queries that were actually used.
pub fn extract_search_queries(tool_calls_log: &[ToolCall]) -> (res: Vec<String>)
    ensures
        res.deep_view() == log_view(tool_calls_log@).filter_map(queries_from()),
{
    let ghost lv = log_view(tool_calls_log@);
    let mut res: Vec<String> = Vec::new();
    let mut i: usize = 0;
    assert(lv.take(0).filter_map(queries_from()) =~= Seq::<Seq<char>>::empty());
    while i < tool_calls_log.len()
        invariant
            0 <= i <= tool_calls_log@.len(),
            lv == log_view(tool_calls_log@),
            res.deep_view() == lv.take(i as int).filter_map(queries_from()),
        decreases tool_calls_log@.len() - i,
    {
        let tc = &tool_calls_log[i];
        assert(lv.take(i + 1).drop_last() =~= lv.take(i as int));
        assert(lv.take(i + 1).last() == tc@);
        let ghost before = res.deep_view();
        if str_eq(tc.tool_name.as_str(), "search_web") {
            match json_str_field_of(tc.input.as_str(), "query") {
                Some(q) => {
                    res.push(q);
                    assert(res.deep_view() =~= before + seq![query_of(tc@)->0]);
                },
                None => {
                    assert(res.deep_view() =~= before);
                },
            }
        } else {
            assert(res.deep_view() =~= before);
        }
        i = i + 1;
    }
    assert(lv.take(tool_calls_log@.len() as int) =~= lv);
    res
}

/// The limitations paragraph, from the calls that failed with category `degraded`.
pub fn extract_limitations(tool_calls_log: &[ToolCall]) -> (res: String)
    ensures
        res@ == limitations_text(log_view(tool_calls_log@)),
{
    let ghost lv = log_view(tool_calls_log@);
    let mut failed: Vec<String> = Vec::new();
    let mut i: usize = 0;
    assert(lv.take(0).filter_map(limitations_from()) =~= Seq::<Seq<char>>::empty());
    while i < tool_calls_log.len()
        invariant
            0 <= i <= tool_calls_log@.len(),
            lv == log_view(tool_calls_log@),
            failed.deep_view() == lv.take(i as int).filter_map(limitations_from()),
        decreases tool_calls_log@.len() - i,
    {
        let tc = &tool_calls_log[i];
        assert(lv.take(i + 1).drop_last() =~= lv.take(i as int));
        assert(lv.take(i + 1).last() == tc@);
        let ghost before = failed.deep_view();
        match &tc.output {
            ToolResult::Error { category, message } => {
                if str_eq(category.as_str(), "degraded") {
                    let mut item = copy_str(tc.tool_name.as_str());
                    push_str(&mut item, ": ");
                    push_str(&mut item, message.as_str());
                    failed.push(item);
                    assert(failed.deep_view() =~= before + seq![limitation_of(tc@)->0]);
                } else {
                    assert(failed.deep_view() =~= before);
                }
            },
            ToolResult::Success { .. } => {
                assert(failed.deep_view() =~= before);
            },
        }
        i = i + 1;
    }
    assert(lv.take(tool_calls_log@.len() as int) =~= lv);
    if failed.len() == 0 {
        "No limitations — all sources were accessible.".to_string()
    } else {
        let mut s = "Could not access: ".to_string();
        let joined = join_strings(&failed, "; ");
        push_str(&mut s, joined.as_str());
        s
    }
}

/// Assembles the report of a completed run: the question, the model's answer, and what the
/// audit trail shows.
pub fn build_search_report(question: &str, answer: &str, tool_calls_log: &[ToolCall]) -> (res:
    SearchReport)
    ensures
        res@ == search_report(question@, answer@, log_view(tool_calls_log@)),
{
    SearchReport {
        question: copy_str(question),
        answer: copy_str(answer),
        sources: extract_sources(tool_calls_log),
        confidence: derive_confidence(tool_calls_log),
        key_findings: extract_key_findings(answer),
        search_queries: extract_search_queries(tool_calls_log),
        limitations: extract_limitations(tool_calls_log),
    }
}


// ---------------------------------------------------------------------------
// Laws
// ---------------------------------------------------------------------------

/// Every call that failed as degraded is named in the report's limitations, as
/// `tool: message`, after `Could not access: `.
pub proof fn law_degraded_failures_are_limitations(log: Seq<ToolCallView>, i: int)
    requires
        0 <= i < log.len(),
        log[i].output matches ToolResultView::Error { category, .. } && category == "degraded"@,
    ensures
        starts_with(limitations_text(log), "Could not access: "@),
        contains(limitations_text(log), log[i].tool_name + ": "@ + log[i].output->message),
{
    let f = limitations_from();
    assert(f(log[i]) == Some(log[i].tool_name + ": "@ + log[i].output->message));
    lemma_filter_map_includes(log, f, i);
    let items = log.filter_map(f);
    let x = log[i].tool_name + ": "@ + log[i].output->message;
    let k = choose|k: int| 0 <= k < items.len() && items[k] == x;
    lemma_join_contains(items, "; "@, k);
    let text = "Could not access: "@ + join(items, "; "@);
    crate::text::lemma_contains_prefix(join(items, "; "@), Seq::<char>::empty(), x);
    assert(join(items, "; "@) + Seq::<char>::empty() =~= join(items, "; "@));
    let p = choose|p: int| occurs_at(join(items, "; "@), x, p);
    let pre = "Could not access: "@;
    assert(text.subrange(pre.len() + p, pre.len() + p + x.len()) =~= join(items, "; "@).subrange(
        p,
        p + x.len(),
    ));
    assert(occurs_at(text, x, pre.len() + p));
    assert(text.subrange(0, pre.len() as int) =~= pre);
}

/// With no degraded failure, the limitations say that every source was accessible.
pub proof fn law_no_degraded_no_limitations(log: Seq<ToolCallView>)
    requires
        forall|i: int|
            0 <= i < log.len() ==> !(#[trigger] log[i].output matches ToolResultView::Error {
                category,
                ..
            } && category == "degraded"@),
    ensures
        limitations_text(log) == "No limitations — all sources were accessible."@,
{
    let f = limitations_from();
    if log.filter_map(f).len() > 0 {
        let x = log.filter_map(f)[0];
        assert(log.filter_map(f).contains(x));
        log.lemma_filter_map_contains(f, x);
        let t = choose|t: ToolCallView| log.contains(t) && f(t) == Some(x);
        let i = choose|i: int| 0 <= i < log.len() && log[i] == t;
        assert(log[i].output matches ToolResultView::Error { category, .. } && category
            == "degraded"@);
    }
}

proof fn lemma_segments_nonempty(s: Seq<char>)
    ensures
        segments(s).len() >= 1,
    decreases s.len(),
{
    if s.len() > 0 {
        lemma_segments_nonempty(s.drop_last());
    }
}

/// A text without sentence breaks is one piece.
proof fn lemma_segments_unbroken(s: Seq<char>)
    requires
        forall|i: int| 0 <= i < s.len() ==> !is_sentence_break(#[trigger] s[i]),
    ensures
        segments(s) == seq![s],
    decreases s.len(),
{
    if s.len() > 0 {
        lemma_segments_unbroken(s.drop_last());
        assert(s.drop_last().push(s.last()) =~= s);
        assert(segments(s) =~= seq![s]);
    } else {
        assert(s =~= Seq::<char>::empty());
    }
}

/// The pieces of two texts joined by a newline are the pieces of each.
proof fn lemma_segments_join(x: Seq<char>, y: Seq<char>)
    ensures
        segments(x.push('\n') + y) == segments(x) + segments(y),
    decreases y.len(),
{
    if y.len() == 0 {
        assert(x.push('\n') + y =~= x.push('\n'));
        assert(x.push('\n').drop_last() =~= x);
        assert(segments(x.push('\n')) =~= segments(x) + segments(y));
    } else {
        let y0 = y.drop_last();
        let c = y.last();
        lemma_segments_join(x, y0);
        lemma_segments_nonempty(y0);
        lemma_segments_nonempty(x);
        let whole = x.push('\n') + y;
        assert(whole.drop_last() =~= x.push('\n') + y0);
        assert(whole.last() == c);
        assert(segments(whole) =~= segments(x) + segments(y));
    }
}

proof fn lemma_filter_map_append<A, B>(x: Seq<A>, y: Seq<A>, f: spec_fn(A) -> Option<B>)
    ensures
        (x + y).filter_map(f) == x.filter_map(f) + y.filter_map(f),
    decreases y.len(),
{
    if y.len() == 0 {
        assert(x + y =~= x);
        assert(x.filter_map(f) + y.filter_map(f) =~= x.filter_map(f));
    } else {
        lemma_filter_map_append(x, y.drop_last(), f);
        assert((x + y).drop_last() =~= x + y.drop_last());
        assert((x + y).last() == y.last());
        match f(y.last()) {
            Some(b) => {
                assert((x + y).filter_map(f) =~= x.filter_map(f) + y.filter_map(f));
            },
            None => {
                assert((x + y).filter_map(f) =~= x.filter_map(f) + y.filter_map(f));
            },
        }
    }
}

/// Short or empty lines never count toward the five findings: a line with no sentence break
/// that is at most 40 bytes long once trimmed (an empty line among them) can be put between
/// two lines of an answer without changing its key findings, wherever it stands.
pub proof fn law_short_lines_do_not_count(a: Seq<char>, b: Seq<char>, c: Seq<char>)
    requires
        forall|i: int| 0 <= i < b.len() ==> b[i] != '.' && b[i] != '\n',
        encode_utf8(trim(b)).len() <= 40,
    ensures
        key_findings(a + seq!['\n'] + b + seq!['\n'] + c) == key_findings(a + seq!['\n'] + c),
{
    let f = long_sentences();
    assert(a + seq!['\n'] + b + seq!['\n'] + c =~= (a.push('\n') + b).push('\n') + c);
    assert(a + seq!['\n'] + c =~= a.push('\n') + c);
    lemma_segments_join(a.push('\n') + b, c);
    lemma_segments_join(a, b);
    lemma_segments_join(a, c);
    lemma_segments_unbroken(b);
    lemma_filter_map_append(segments(a) + seq![b], segments(c), f);
    lemma_filter_map_append(segments(a), seq![b], f);
    lemma_filter_map_append(segments(a), segments(c), f);
    Seq::lemma_filter_map_singleton(b, f);
    assert(f(b) is None);
    assert(segments(a).filter_map(f) + seq![b].filter_map(f) =~= segments(a).filter_map(f));
}

/// A single line without sentence breaks is one finding, trimmed and closed by a full stop,
/// when it is longer than 40 bytes once trimmed, and none otherwise.
pub proof fn law_one_line_findings(b: Seq<char>)
    requires
        forall|i: int| 0 <= i < b.len() ==> b[i] != '.' && b[i] != '\n',
    ensures
        encode_utf8(trim(b)).len() > 40 ==> key_findings(b) == seq![trim(b).push('.')],
        encode_utf8(trim(b)).len() <= 40 ==> key_findings(b).len() == 0,
{
    lemma_segments_unbroken(b);
    Seq::lemma_filter_map_singleton(b, long_sentences());
    assert(key_findings(b) =~= if encode_utf8(trim(b)).len() > 40 {
        seq![trim(b).push('.')]
    } else {
        Seq::<Seq<char>>::empty()
    });
}

/// A long line added after an answer becomes its next finding, trimmed and closed by a full
/// stop, while the answer has fewer than five; once it has five, nothing changes.
pub proof fn law_long_line_is_the_next_finding(a: Seq<char>, b: Seq<char>)
    requires
        forall|i: int| 0 <= i < b.len() ==> b[i] != '.' && b[i] != '\n',
        encode_utf8(trim(b)).len() > 40,
    ensures
        key_findings(a).len() < 5 ==> key_findings(a + seq!['\n'] + b) == key_findings(a).push(
            trim(b).push('.'),
        ),
        key_findings(a).len() == 5 ==> key_findings(a + seq!['\n'] + b) == key_findings(a),
{
    let f = long_sentences();
    assert(a + seq!['\n'] + b =~= a.push('\n') + b);
    lemma_segments_join(a, b);
    lemma_segments_unbroken(b);
    lemma_filter_map_append(segments(a), seq![b], f);
    Seq::lemma_filter_map_singleton(b, f);
    let l = segments(a).filter_map(f);
    assert(segments(a + seq!['\n'] + b).filter_map(f) =~= l.push(trim(b)));
    let g = |s: Seq<char>| s.push('.');
    if l.len() < 5 {
        assert(first_n(l.push(trim(b)), 5) =~= l.push(trim(b)));
        assert(first_n(l, 5) == l);
        assert(l.push(trim(b)).map_values(g) =~= l.map_values(g).push(trim(b).push('.')));
    } else {
        assert(first_n(l.push(trim(b)), 5) =~= first_n(l, 5));
    }
}

/// A report holds at most five key findings, each ending with a full stop and longer than 40
/// bytes before it.
pub proof fn law_key_findings_shape(answer: Seq<char>)
    ensures
        key_findings(answer).len() <= 5,
        forall|i: int|
            0 <= i < key_findings(answer).len() ==> #[trigger] key_findings(answer)[i].last()
                == '.' && encode_utf8(key_findings(answer)[i].drop_last()).len() > 40,
{
    let longs = segments(answer).filter_map(long_sentences());
    let firsts = first_n(longs, 5);
    assert forall|i: int| 0 <= i < firsts.len() implies encode_utf8(#[trigger] firsts[i]).len()
        > 40 by {
        assert(longs.contains(firsts[i]));
        segments(answer).lemma_filter_map_contains(long_sentences(), firsts[i]);
    }
    assert forall|i: int| 0 <= i < key_findings(answer).len() implies #[trigger] key_findings(
        answer,
    )[i].last() == '.' && encode_utf8(key_findings(answer)[i].drop_last()).len() > 40 by {
        assert(key_findings(answer)[i] == firsts[i].push('.'));
        assert(firsts[i].push('.').drop_last() =~= firsts[i]);
    }
}

/// Confidence is high with three or more successful fetches, medium with one or two, low
/// with none, whatever else the log holds.
pub proof fn law_confidence_levels(log: Seq<ToolCallView>)
    ensures
        confidence_of(log) == "high"@ <==> successful_fetches(log) >= 3,
        confidence_of(log) == "low"@ <==> successful_fetches(log) == 0,
{
    reveal_strlit("high");
    reveal_strlit("medium");
    reveal_strlit("low");
    assert("high"@.len() != "medium"@.len());
    assert("high"@.len() != "low"@.len());
    assert("low"@.len() != "medium"@.len());
}

} // verus!
