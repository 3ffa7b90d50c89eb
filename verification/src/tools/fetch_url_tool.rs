//! Reading a web page: the `fetch_url` tool.
use vstd::prelude::*;
use vstd::utf8::encode_utf8;
use crate::json::{field_views, json_object, json_quote, json_quote_spec, write_json_object};
use crate::text::{
    chars_of, copy_str, decimal, join, join_strings, lemma_encode_utf8_concat,
    lemma_encode_utf8_len_monotone, lemma_encode_utf8_push, push_decimal, push_str, starts_with,
    starts_with_str, string_of, trim, trimmed, utf8_len, utf8_width_of,
};
use crate::tools::{
    required_str_argument, schema_parameters, schema_property,
    typed_function_schema, degraded, write_schema_parameters, write_schema_property,
    write_typed_function_schema, missing_parameter, is_success_code, HttpStatus, SendFailure,
};
use crate::types::{ToolError, ToolErrorView};

verus! {

pub const TOOL_NAME: &'static str = "fetch_url";

pub const DESCRIPTION: &'static str = "Fetch and read the full text content of a web page.\n                            Use this after search_web to read the actual content of \n                            promising URLs. Strips HTML tags and returns clean text. \n                            Content is truncated to ~3000 characters. Do not use this \n                            for search — use search_web first to find relevant URLs.";

pub const URL_PARAMETER_DESCRIPTION: &'static str = "The full URL to fetch including https://";

/// The elements whose text makes up a page's content.
pub const CONTENT_SELECTOR: &'static str = "p, h1, h2, h3, h4, h5, h6, article, main, li";

/// The most bytes of page text that a result carries before it is cut.
pub const MAX_CONTENT_BYTES: usize = 3000;

/// The texts of the elements of `html` that `selector` picks, in document order, each as the
/// list of its text nodes; `None` where `selector` is not a valid selector.
pub uninterp spec fn html_select_texts_spec(html: Seq<char>, selector: Seq<char>) -> Option<
    Seq<Seq<Seq<char>>>,
>;

/// Parses `html` with `scraper::Html::parse_document`, picks the elements that
/// `scraper::Selector::parse(selector)` matches and lists the text nodes of each. Claims only
/// that the result is the named function of `html` and `selector`.
#[verifier::external_body]
fn html_select_texts(html: &str, selector: &str) -> (res: Option<Vec<Vec<String>>>)
    ensures
        match res {
            Some(v) => html_select_texts_spec(html@, selector@) == Some(v.deep_view()),
            None => html_select_texts_spec(html@, selector@) is None,
        },
{
    let document = scraper::Html::parse_document(html);
    scraper::Selector::parse(selector).ok().map(
        |sel| document.select(&sel).map(|e| e.text().map(|t| t.to_string()).collect()).collect(),
    )
}

/// The schema that the model is given for this tool.
pub open spec fn schema() -> Seq<char> {
    typed_function_schema(
        TOOL_NAME@,
        DESCRIPTION@,
        schema_parameters(
            seq![("url"@, schema_property("string"@, URL_PARAMETER_DESCRIPTION@))],
            "url"@,
        ),
    )
}

pub fn name() -> (res: &'static str)
    ensures
        res@ == TOOL_NAME@,
{
    TOOL_NAME
}

/// The tool's schema, as JSON text.
pub fn description() -> (res: String)
    ensures
        res@ == schema(),
{
    let mut props: Vec<(String, String)> = Vec::new();
    props.push(("url".to_string(), write_schema_property("string", URL_PARAMETER_DESCRIPTION)));
    assert(field_views(props@) =~= seq![
        ("url"@, schema_property("string"@, URL_PARAMETER_DESCRIPTION@)),
    ]);
    let params = write_schema_parameters(&props, "url");
    write_typed_function_schema(TOOL_NAME, DESCRIPTION, params)
}

/// Reads the `url` argument.
pub fn parse_arguments(args: &str) -> (res: Result<String, ToolError>)
    ensures
        match crate::json::json_str_field(args@, "url"@) {
            Some(v) => res matches Ok(s) && s@ == v,
            None => res matches Err(e) && e@ == missing_parameter("url"@),
        },
{
    required_str_argument(args, "url")
}

/// A URL must start with `http://` or `https://`.
pub fn check_url(url: &str) -> (res: Result<(), ToolError>)
    ensures
        (starts_with(url@, "http://"@) || starts_with(url@, "https://"@)) ==> res is Ok,
        !(starts_with(url@, "http://"@) || starts_with(url@, "https://"@)) ==> (res matches Err(e)
            && e@ == ToolErrorView::NonRetryable(
            "invalid URL — must start with http:// or https://: "@ + url@,
        )),
{
    if !starts_with_str(url, "http://") && !starts_with_str(url, "https://") {
        let mut m = "invalid URL — must start with http:// or https://: ".to_string();
        push_str(&mut m, url);
        return Err(ToolError::NonRetryable(m));
    }
    Ok(())
}

/// A page that could not be requested is degraded: a timeout or a connection failure.
pub fn send_error(url: &str, failure: &SendFailure) -> (res: ToolError)
    ensures
        failure.timeout ==> res@ == degraded(url@, "timed out after 15s: "@ + failure.message@),
        !failure.timeout ==> res@ == degraded(url@, "connection failed: "@ + failure.message@),
{
    let mut reason = if failure.timeout {
        "timed out after 15s: ".to_string()
    } else {
        "connection failed: ".to_string()
    };
    push_str(&mut reason, failure.message.as_str());
    ToolError::Degraded { url: copy_str(url), reason }
}

/// The error for a response status: 401 and 403 deny access (the reason names the code),
/// 404 finds no page, any other failing status is an HTTP error naming the status line; a
/// 2xx status is none.
pub fn status_error(url: &str, status: &HttpStatus) -> (res: Option<ToolError>)
    ensures
        (status.code == 401 || status.code == 403) ==> (res matches Some(e) && e@ == degraded(
            url@,
            "access denied ("@ + decimal(status.code as nat) + ")"@,
        )),
        status.code == 404 ==> (res matches Some(e) && e@ == degraded(url@, "page not found (404)"@)),
        (status.code != 401 && status.code != 403 && status.code != 404 && !is_success_code(
            status.code,
        )) ==> (res matches Some(e) && e@ == degraded(url@, "HTTP error: "@ + status.text@)),
        is_success_code(status.code) ==> res is None,
{
    if status.code == 403 || status.code == 401 {
        let mut reason = "access denied (".to_string();
        push_decimal(&mut reason, status.code as u64);
        push_str(&mut reason, ")");
        return Some(ToolError::Degraded { url: copy_str(url), reason });
    }
    if status.code == 404 {
        return Some(
            ToolError::Degraded { url: copy_str(url), reason: "page not found (404)".to_string() },
        );
    }
    if !(200 <= status.code && status.code <= 299) {
        let mut reason = "HTTP error: ".to_string();
        push_str(&mut reason, status.text.as_str());
        return Some(ToolError::Degraded { url: copy_str(url), reason });
    }
    None
}

/// A page whose body could not be read is degraded.
pub fn body_error(url: &str, message: &str) -> (res: ToolError)
    ensures
        res@ == degraded(url@, "failed to read response body: "@ + message@),
{
    let mut reason = "failed to read response body: ".to_string();
    push_str(&mut reason, message);
    ToolError::Degraded { url: copy_str(url), reason }
}

// ---------------------------------------------------------------------------
// Page text
// ---------------------------------------------------------------------------

/// `s` without repeats of the item just before.
pub open spec fn dedup(s: Seq<Seq<char>>) -> Seq<Seq<char>>
    decreases s.len(),
{
    if s.len() == 0 {
        s
    } else {
        let d = dedup(s.drop_last());
        if d.len() > 0 && d.last() == s.last() {
            d
        } else {
            d.push(s.last())
        }
    }
}

pub open spec fn nonblank(t: Seq<char>) -> Option<Seq<char>> {
    if trim(t).len() > 0 {
        Some(t)
    } else {
        None
    }
}

pub open spec fn nonblank_texts() -> spec_fn(Seq<char>) -> Option<Seq<char>> {
    |t: Seq<char>| nonblank(t)
}

pub open spec fn element_texts(els: Seq<Seq<Seq<char>>>) -> Seq<Seq<char>> {
    els.map_values(|parts: Seq<Seq<char>>| join(parts, " "@))
}

/// The readable text of a page: the text of each content element (its text nodes joined by
/// spaces), blank ones dropped, repeats in a row dropped, one per line.
pub open spec fn clean_text(html: Seq<char>) -> Seq<char> {
    let els = match html_select_texts_spec(html, CONTENT_SELECTOR@) {
        Some(e) => e,
        None => Seq::empty(),
    };
    join(dedup(element_texts(els).filter_map(nonblank_texts())), "\n"@)
}

/// Extracts the readable text of a page.
pub fn extract_clean_text(html: &str) -> (res: String)
    ensures
        res@ == clean_text(html@),
{
    let els = match html_select_texts(html, CONTENT_SELECTOR) {
        Some(e) => e,
        None => Vec::new(),
    };
    let ghost texts = element_texts(els.deep_view());
    let mut parts: Vec<String> = Vec::new();
    let mut i: usize = 0;
    assert(texts.take(0).filter_map(nonblank_texts()) =~= Seq::<Seq<char>>::empty());
    assert(dedup(Seq::<Seq<char>>::empty()) =~= Seq::<Seq<char>>::empty());
    while i < els.len()
        invariant
            0 <= i <= els@.len(),
            texts == element_texts(els.deep_view()),
            parts.deep_view() == dedup(texts.take(i as int).filter_map(nonblank_texts())),
        decreases els@.len() - i,
    {
        let t = join_strings(&els[i], " ");
        assert(texts[i as int] == t@);
        assert(texts.take(i + 1).drop_last() =~= texts.take(i as int));
        let ghost before = texts.take(i as int).filter_map(nonblank_texts());
        let tt = trimmed(t.as_str());
        if tt.as_str().unicode_len() > 0 {
            let ghost after = before + seq![t@];
            assert(after.drop_last() =~= before);
            let n = parts.len();
            let repeat = n > 0 && crate::text::str_eq(parts[n - 1].as_str(), t.as_str());
            let ghost pv = parts.deep_view();
            if !repeat {
                parts.push(t);
                assert(parts.deep_view() =~= pv.push(after.last()));
            }
        }
        i = i + 1;
    }
    assert(texts.take(els@.len() as int) =~= texts);
    join_strings(&parts, "\n")
}

/// `k` ends a cut of `s` to `n` bytes: its first `k` characters take at most `n` bytes in
/// UTF-8, and one character more would take more.
pub open spec fn is_cut(s: Seq<char>, n: nat, k: int) -> bool {
    &&& 0 <= k <= s.len()
    &&& encode_utf8(s.subrange(0, k)).len() <= n
    &&& (k == s.len() || encode_utf8(s.subrange(0, k + 1)).len() > n)
}

/// The number of characters of `s` that fit in `n` bytes: the cut ends on the last character
/// boundary at or before byte `n`.
pub open spec fn cut_point(s: Seq<char>, n: nat) -> int {
    choose|k: int| is_cut(s, n, k)
}

/// The page text as a result carries it: where it is longer than 3000 bytes, the characters
/// that fit in 3000 bytes and a marker.
pub open spec fn truncated(s: Seq<char>) -> Seq<char> {
    if encode_utf8(s).len() > MAX_CONTENT_BYTES {
        s.subrange(0, cut_point(s, MAX_CONTENT_BYTES as nat)) + "... [truncated]"@
    } else {
        s
    }
}

proof fn lemma_cut_unique(s: Seq<char>, n: nat, a: int, b: int)
    requires
        is_cut(s, n, a),
        is_cut(s, n, b),
    ensures
        a == b,
{
    if a < b {
        lemma_encode_utf8_len_monotone(s, a + 1, b);
    } else if b < a {
        lemma_encode_utf8_len_monotone(s, b + 1, a);
    }
}

/// Where a cut of `v` to `n` bytes ends.
fn cut_index(v: &Vec<char>, n: usize) -> (res: usize)
    requires
        n <= usize::MAX - 4,
    ensures
        is_cut(v@, n as nat, res as int),
        res == cut_point(v@, n as nat),
{
    let mut bytes: usize = 0;
    let mut i: usize = 0;
    assert(v@.subrange(0, 0) =~= Seq::<char>::empty());
    loop
        invariant
            0 <= i <= v@.len(),
            n <= usize::MAX - 4,
            bytes == encode_utf8(v@.subrange(0, i as int)).len(),
            bytes <= n,
        ensures
            0 <= i <= v@.len(),
            bytes == encode_utf8(v@.subrange(0, i as int)).len(),
            bytes <= n,
            i == v@.len() || encode_utf8(v@.subrange(0, i + 1)).len() > n,
        decreases v@.len() - i,
    {
        if i == v.len() {
            break;
        }
        proof {
            lemma_encode_utf8_push(v@.subrange(0, i as int), v@[i as int]);
            assert(v@.subrange(0, i as int).push(v@[i as int]) =~= v@.subrange(0, i + 1));
        }
        let w = utf8_width_of(v[i]);
        if w > n - bytes {
            break;
        }
        bytes = bytes + w;
        i = i + 1;
    }
    proof {
        assert(is_cut(v@, n as nat, i as int));
        lemma_cut_unique(v@, n as nat, i as int, cut_point(v@, n as nat));
    }
    i
}

/// The result of a page read: its URL, its text (cut where it is long) and the text's length
/// in bytes; a page without text is degraded.
pub open spec fn page_result_spec(url: Seq<char>, text: Seq<char>) -> Result<Seq<char>, ToolErrorView> {
    if trim(text).len() == 0 {
        Err(ToolErrorView::Degraded { url, reason: "page contained no extractable text content"@ })
    } else {
        let t = truncated(text);
        Ok(
            json_object(
                seq![
                    ("url"@, json_quote_spec(url)),
                    ("content"@, json_quote_spec(t)),
                    ("content_length"@, decimal(encode_utf8(t).len())),
                ],
            ),
        )
    }
}

/// The result for a page whose readable text is `text`.
pub fn page_result(url: &str, text: &str) -> (res: Result<String, ToolError>)
    ensures
        match page_result_spec(url@, text@) {
            Ok(s) => res matches Ok(r) && r@ == s,
            Err(e) => res matches Err(r) && r@ == e,
        },
{
    let t = trimmed(text);
    if t.as_str().unicode_len() == 0 {
        return Err(
            ToolError::Degraded {
                url: copy_str(url),
                reason: "page contained no extractable text content".to_string(),
            },
        );
    }
    let v = chars_of(text);
    let long = crate::text::utf8_len_exceeds(&v, 0, v.len(), MAX_CONTENT_BYTES);
    assert(v@.subrange(0, v@.len() as int) =~= v@);
    let content = if long {
        let k = cut_index(&v, MAX_CONTENT_BYTES);
        let mut c = string_of(&v, 0, k);
        push_str(&mut c, "... [truncated]");
        c
    } else {
        copy_str(text)
    };
    assert(content@ == truncated(text@));
    proof {
        if long {
            reveal_strlit("... [truncated]");
            crate::text::lemma_encode_utf8_concat(
                v@.subrange(0, cut_point(text@, MAX_CONTENT_BYTES as nat)),
                "... [truncated]"@,
            );
            assert(encode_utf8("... [truncated]"@).len() == 15) by {
                vstd::string::is_ascii_spec_bytes("... [truncated]");
            }
        }
    }
    let length = utf8_len(content.as_str());
    let mut length_text = String::new();
    push_decimal(&mut length_text, length as u64);
    let mut fields: Vec<(String, String)> = Vec::new();
    fields.push(("url".to_string(), json_quote(url)));
    fields.push(("content".to_string(), json_quote(content.as_str())));
    fields.push(("content_length".to_string(), length_text));
    let res = write_json_object(&fields);
    assert(field_views(fields@) =~= seq![
        ("url"@, json_quote_spec(url@)),
        ("content"@, json_quote_spec(truncated(text@))),
        ("content_length"@, decimal(encode_utf8(truncated(text@)).len())),
    ]);
    Ok(res)
}

} // verus!
