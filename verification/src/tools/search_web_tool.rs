//! Searching the web: the `search_web` tool, over the Brave or the Tavily search API.
use vstd::prelude::*;
use crate::json::{
    field_views, json_array, json_elements, json_elements_spec, json_member, json_member_spec,
    json_object, json_quote, json_quote_spec, json_str_field, json_str_field_of, json_u64,
    json_u64_spec, write_json_array, write_json_object,
};
use crate::text::{decimal, push_decimal, push_str};
use crate::tools::{
    degraded, is_success_code, missing_parameter, non_retryable_error, required_str_argument,
    retryable_error, schema_parameters, schema_property, typed_function_schema, url_encode,
    url_encoded, write_schema_parameters, write_schema_property, write_typed_function_schema,
    HttpStatus, SendFailure,
};
use crate::types::{ToolError, ToolErrorView};

verus! {

pub const TOOL_NAME: &'static str = "search_web";

pub const DESCRIPTION: &'static str = "Search the web using Brave Search API.\n                            Use this to find relevant URLs and snippets for a research question. \n                            Pass a concise search query of 3-7 words. Returns titles, URLs, and \n                            snippets but NOT full page content. Use fetch_url separately to read \n                            full content from promising URLs.";

pub const QUERY_PARAMETER_DESCRIPTION: &'static str = "The search query. Keep it concise, 3-7 words.\n                                        Do not pass full sentences or URLs.";

pub const COUNT_PARAMETER_DESCRIPTION: &'static str = "Number of results to return. Default 5, maximum 10.";

/// The schema that the model is given for this tool.
pub open spec fn schema() -> Seq<char> {
    typed_function_schema(
        TOOL_NAME@,
        DESCRIPTION@,
        schema_parameters(
            seq![
                ("query"@, schema_property("string"@, QUERY_PARAMETER_DESCRIPTION@)),
                ("count"@, schema_property("integer"@, COUNT_PARAMETER_DESCRIPTION@)),
            ],
            "query"@,
        ),
    )
}

pub fn name() -> (res: &'static str)
    ensures
        res@ == TOOL_NAME@,
{
    TOOL_NAME
}

/// The tool's schema, as JSON text.
pub fn description() -> (res: String)
    ensures
        res@ == schema(),
{
    let mut props: Vec<(String, String)> = Vec::new();
    props.push(("query".to_string(), write_schema_property("string", QUERY_PARAMETER_DESCRIPTION)));
    props.push(("count".to_string(), write_schema_property("integer", COUNT_PARAMETER_DESCRIPTION)));
    assert(field_views(props@) =~= seq![
        ("query"@, schema_property("string"@, QUERY_PARAMETER_DESCRIPTION@)),
        ("count"@, schema_property("integer"@, COUNT_PARAMETER_DESCRIPTION@)),
    ]);
    let params = write_schema_parameters(&props, "query");
    write_typed_function_schema(TOOL_NAME, DESCRIPTION, params)
}

/// The search API that serves a search.
#[derive(Debug)]
pub enum SearchBackend {
    Brave,
    Tavily,
}

/// A search to make: the backend, the query and how many results are wanted.
#[derive(Debug)]
pub struct SearchRequest {
    pub backend: SearchBackend,
    pub query: String,
    pub count: usize,
}

/// The number of results asked for: the `count` argument where it is an unsigned integer,
/// 5 otherwise.
pub open spec fn requested_count(args: Seq<char>) -> usize {
    match json_member_spec(args, "count"@) {
        Some(m) => match json_u64_spec(m) {
            Some(c) => c as usize,
            None => 5,
        },
        None => 5,
    }
}

/// Reads the arguments of a search: the required `query` and the optional `count`; Tavily
/// serves the search where its key is configured, Brave otherwise.
pub fn prepare(args: &str, has_tavily_key: bool) -> (res: Result<SearchRequest, ToolError>)
    ensures
        match json_str_field(args@, "query"@) {
            Some(q) => res matches Ok(r) && r.query@ == q && r.count == requested_count(args@) && (
            r.backend is Tavily <==> has_tavily_key),
            None => res matches Err(e) && e@ == missing_parameter("query"@),
        },
{
    let query = match required_str_argument(args, "query") {
        Ok(q) => q,
        Err(e) => {
            return Err(e);
        },
    };
    let count: usize = match json_member(args, "count") {
        Some(m) => match json_u64(m.as_str()) {
            Some(c) => c as usize,
            None => 5,
        },
        None => 5,
    };
    let backend = if has_tavily_key {
        SearchBackend::Tavily
    } else {
        SearchBackend::Brave
    };
    Ok(SearchRequest { backend, query, count })
}

pub open spec fn capped(count: usize) -> nat {
    if count < 10 {
        count as nat
    } else {
        10
    }
}

// ---------------------------------------------------------------------------
// Shaping results
// ---------------------------------------------------------------------------

/// A string member of `item`, or the empty string.
pub open spec fn str_or_empty(item: Seq<char>, key: Seq<char>) -> Seq<char> {
    match json_str_field(item, key) {
        Some(s) => s,
        None => Seq::empty(),
    }
}

/// One search result: title, URL and snippet, the snippet from member `snippet_key`.
pub open spec fn shaped_result(item: Seq<char>, snippet_key: Seq<char>) -> Seq<char> {
    json_object(
        seq![
            ("title"@, json_quote_spec(str_or_empty(item, "title"@))),
            ("url"@, json_quote_spec(str_or_empty(item, "url"@))),
            ("snippet"@, json_quote_spec(str_or_empty(item, snippet_key))),
        ],
    )
}

/// The output of a search: the query, the number of results and the first `count` results.
pub open spec fn search_output(query: Seq<char>, items: Seq<Seq<char>>, count: usize, snippet_key: Seq<
    char,
>) -> Seq<char> {
    let kept = if items.len() <= count {
        items
    } else {
        items.subrange(0, count as int)
    };
    let shaped = kept.map_values(|item: Seq<char>| shaped_result(item, snippet_key));
    json_object(
        seq![
            ("query"@, json_quote_spec(query)),
            ("result_count"@, decimal(shaped.len())),
            ("results"@, json_array(shaped)),
        ],
    )
}

/// The result made from one response item: the item's own `title`, `url` and `snippet_key`
/// strings, each empty where the item has no such string.
pub open spec fn result_from_members(item: Seq<char>, snippet_key: Seq<char>) -> Seq<char> {
    let title = match json_str_field(item, "title"@) {
        Some(t) => t,
        None => Seq::empty(),
    };
    let url = match json_str_field(item, "url"@) {
        Some(u) => u,
        None => Seq::empty(),
    };
    let snippet = match json_str_field(item, snippet_key) {
        Some(t) => t,
        None => Seq::empty(),
    };
    json_object(
        seq![
            ("title"@, json_quote_spec(title)),
            ("url"@, json_quote_spec(url)),
            ("snippet"@, json_quote_spec(snippet)),
        ],
    )
}

/// Each search result comes from one item of the response, in order, at most `count` of them:
/// its title is the item's own `title` string, its URL the item's `url` string and its snippet
/// the string under `snippet_key`; the count is the number of results.
pub proof fn law_search_results_come_from_items(
    query: Seq<char>,
    items: Seq<Seq<char>>,
    count: usize,
    snippet_key: Seq<char>,
)
    ensures
        ({
            let n = if items.len() <= count {
                items.len()
            } else {
                count as nat
            };
            search_output(query, items, count, snippet_key) == json_object(
                seq![
                    ("query"@, json_quote_spec(query)),
                    ("result_count"@, decimal(n)),
                    (
                        "results"@,
                        json_array(Seq::new(n, |i: int| result_from_members(items[i], snippet_key))),
                    ),
                ],
            )
        }),
{
    let n = if items.len() <= count {
        items.len()
    } else {
        count as nat
    };
    let kept = if items.len() <= count {
        items
    } else {
        items.subrange(0, count as int)
    };
    let shaped = kept.map_values(|item: Seq<char>| shaped_result(item, snippet_key));
    let expected = Seq::new(n, |i: int| result_from_members(items[i], snippet_key));
    assert(kept.len() == n);
    assert forall|i: int| 0 <= i < n implies #[trigger] shaped[i] == expected[i] by {
        assert(kept[i] == items[i]);
        assert(shaped[i] == shaped_result(items[i], snippet_key));
        assert(expected[i] == result_from_members(items[i], snippet_key));
    }
    assert(shaped =~= expected);
}

/// A Brave body's results are the items of its `web.results` array, their snippets taken
/// from each item's `description`.
pub proof fn law_brave_results_come_from_web_results(
    query: Seq<char>,
    count: usize,
    body: Seq<char>,
    web: Seq<char>,
    results: Seq<char>,
    items: Seq<Seq<char>>,
)
    requires
        json_member_spec(body, "web"@) == Some(web),
        json_member_spec(web, "results"@) == Some(results),
        json_elements_spec(results) == Some(items),
    ensures
        brave_results_spec(query, count, Ok(body)) == Ok::<Seq<char>, ToolErrorView>(
            search_output(query, items, count, "description"@),
        ),
{
}

/// A Tavily body's results are the items of its `results` array, their snippets taken from
/// each item's `content`.
pub proof fn law_tavily_results_come_from_results(
    query: Seq<char>,
    count: usize,
    body: Seq<char>,
    results: Seq<char>,
    items: Seq<Seq<char>>,
)
    requires
        json_member_spec(body, "results"@) == Some(results),
        json_elements_spec(results) == Some(items),
    ensures
        tavily_results_spec(query, count, Ok(body)) == Ok::<Seq<char>, ToolErrorView>(
            search_output(query, items, count, "content"@),
        ),
{
}

fn write_shaped_result(item: &str, snippet_key: &str) -> (res: String)
    ensures
        res@ == shaped_result(item@, snippet_key@),
{
    let title = match json_str_field_of(item, "title") {
        Some(t) => t,
        None => String::new(),
    };
    let url = match json_str_field_of(item, "url") {
        Some(u) => u,
        None => String::new(),
    };
    let snippet = match json_str_field_of(item, snippet_key) {
        Some(s) => s,
        None => String::new(),
    };
    let mut fields: Vec<(String, String)> = Vec::new();
    fields.push(("title".to_string(), json_quote(title.as_str())));
    fields.push(("url".to_string(), json_quote(url.as_str())));
    fields.push(("snippet".to_string(), json_quote(snippet.as_str())));
    assert(field_views(fields@) =~= seq![
        ("title"@, json_quote_spec(str_or_empty(item@, "title"@))),
        ("url"@, json_quote_spec(str_or_empty(item@, "url"@))),
        ("snippet"@, json_quote_spec(str_or_empty(item@, snippet_key@))),
    ]);
    write_json_object(&fields)
}

fn write_search_output(query: &str, items: &Vec<String>, count: usize, snippet_key: &str) -> (res:
    String)
    ensures
        res@ == search_output(query@, items.deep_view(), count, snippet_key@),
{
    let n = if items.len() <= count {
        items.len()
    } else {
        count
    };
    let ghost kept = if items@.len() <= count {
        items.deep_view()
    } else {
        items.deep_view().subrange(0, count as int)
    };
    let mut shaped: Vec<String> = Vec::new();
    let mut i: usize = 0;
    while i < n
        invariant
            0 <= i <= n <= items@.len(),
            n == kept.len(),
            kept == (if items@.len() <= count {
                items.deep_view()
            } else {
                items.deep_view().subrange(0, count as int)
            }),
            shaped.deep_view() == kept.subrange(0, i as int).map_values(
                |item: Seq<char>| shaped_result(item, snippet_key@),
            ),
        decreases n - i,
    {
        let r = write_shaped_result(items[i].as_str(), snippet_key);
        assert(kept[i as int] == items@[i as int]@);
        let ghost before = shaped.deep_view();
        let ghost rv = r@;
        shaped.push(r);
        assert(shaped.deep_view() =~= before.push(rv));
        assert(kept.subrange(0, i + 1) =~= kept.subrange(0, i as int).push(kept[i as int]));
        assert(shaped.deep_view() =~= kept.subrange(0, i + 1).map_values(
            |item: Seq<char>| shaped_result(item, snippet_key@),
        ));
        i = i + 1;
    }
    assert(kept.subrange(0, n as int) =~= kept);
    let mut count_text = String::new();
    push_decimal(&mut count_text, n as u64);
    let mut fields: Vec<(String, String)> = Vec::new();
    fields.push(("query".to_string(), json_quote(query)));
    fields.push(("result_count".to_string(), count_text));
    fields.push(("results".to_string(), write_json_array(&shaped)));
    assert(field_views(fields@) =~= seq![
        ("query"@, json_quote_spec(query@)),
        ("result_count"@, decimal(n as nat)),
        ("results"@, json_array(shaped.deep_view())),
    ]);
    write_json_object(&fields)
}

// ---------------------------------------------------------------------------
// Brave
// ---------------------------------------------------------------------------

/// The Brave request URL: the query percent-encoded, at most 10 results.
pub open spec fn brave_url_spec(query: Seq<char>, count: usize) -> Seq<char> {
    "https://api.search.brave.com/res/v1/web/search?q="@ + url_encoded(query) + "&count="@
        + decimal(capped(count))
}

pub fn brave_url(query: &str, count: usize) -> (res: String)
    ensures
        res@ == brave_url_spec(query@, count),
{
    let mut url = "https://api.search.brave.com/res/v1/web/search?q=".to_string();
    push_str(&mut url, url_encode(query).as_str());
    push_str(&mut url, "&count=");
    let c = if count < 10 {
        count
    } else {
        10
    };
    push_decimal(&mut url, c as u64);
    url
}

/// A Brave request that was not answered: a timeout or a failed connection can be retried,
/// anything else cannot.
pub fn brave_send_error(failure: &SendFailure) -> (res: ToolError)
    ensures
        failure.timeout ==> res@ == ToolErrorView::Retryable(
            "search timed out: "@ + failure.message@,
        ),
        !failure.timeout && failure.connect ==> res@ == ToolErrorView::Retryable(
            "connection failed: "@ + failure.message@,
        ),
        !failure.timeout && !failure.connect ==> res@ == ToolErrorView::NonRetryable(
            "request failed: "@ + failure.message@,
        ),
{
    if failure.timeout {
        retryable_error("search timed out: ", failure.message.as_str())
    } else if failure.connect {
        retryable_error("connection failed: ", failure.message.as_str())
    } else {
        non_retryable_error("request failed: ", failure.message.as_str())
    }
}

/// The error for a Brave response status: a bad key (401), the rate limit (429, retryable),
/// any other failing status; none for 2xx.
pub fn brave_status_error(status: &HttpStatus) -> (res: Option<ToolError>)
    ensures
        status.code == 401 ==> (res matches Some(e) && e@ == ToolErrorView::NonRetryable(
            "Brave API key is invalid or missing"@,
        )),
        status.code == 429 ==> (res matches Some(e) && e@ == ToolErrorView::Retryable(
            "Brave API rate limit hit — back off and retry"@,
        )),
        (status.code != 401 && status.code != 429 && !is_success_code(status.code)) ==> (res matches Some(
            e,
        ) && e@ == ToolErrorView::NonRetryable("Brave API returned status: "@ + status.text@)),
        is_success_code(status.code) ==> res is None,
{
    if status.code == 401 {
        return Some(ToolError::NonRetryable("Brave API key is invalid or missing".to_string()));
    }
    if status.code == 429 {
        return Some(
            ToolError::Retryable("Brave API rate limit hit — back off and retry".to_string()),
        );
    }
    if !(200 <= status.code && status.code <= 299) {
        return Some(non_retryable_error("Brave API returned status: ", status.text.as_str()));
    }
    None
}

/// The result array of a Brave response: `web.results`.
pub open spec fn brave_items(body: Seq<char>) -> Option<Seq<Seq<char>>> {
    match json_member_spec(body, "web"@) {
        Some(web) => match json_member_spec(web, "results"@) {
            Some(results) => json_elements_spec(results),
            None => None,
        },
        None => None,
    }
}

/// The output of a Brave search whose body was read as `body` (or failed with its error text).
pub open spec fn brave_results_spec(query: Seq<char>, count: usize, body: Result<Seq<char>, Seq<char>>) -> Result<
    Seq<char>,
    ToolErrorView,
> {
    match body {
        Err(e) => Err(ToolErrorView::NonRetryable("failed to parse Brave response as JSON: "@ + e)),
        Ok(text) => match brave_items(text) {
            Some(items) => Ok(search_output(query, items, count, "description"@)),
            None => Err(
                degraded(
                    "https://api.search.brave.com/?q="@ + query,
                    "no web results in response"@,
                ),
            ),
        },
    }
}

pub open spec fn body_view(body: &Result<String, String>) -> Result<Seq<char>, Seq<char>> {
    match body {
        Ok(t) => Ok(t@),
        Err(e) => Err(e@),
    }
}

pub open spec fn result_matches(res: Result<String, ToolError>, spec: Result<Seq<char>, ToolErrorView>) -> bool {
    match spec {
        Ok(s) => res matches Ok(r) && r@ == s,
        Err(e) => res matches Err(r) && r@ == e,
    }
}

/// Shapes a Brave response body into the tool's output.
pub fn brave_results(query: &str, count: usize, body: &Result<String, String>) -> (res: Result<
    String,
    ToolError,
>)
    ensures
        result_matches(res, brave_results_spec(query@, count, body_view(body))),
{
    let text = match body {
        Err(e) => {
            return Err(non_retryable_error("failed to parse Brave response as JSON: ", e.as_str()));
        },
        Ok(t) => t,
    };
    let items = match json_member(text.as_str(), "web") {
        Some(web) => match json_member(web.as_str(), "results") {
            Some(results) => json_elements(results.as_str()),
            None => None,
        },
        None => None,
    };
    match items {
        Some(items) => Ok(write_search_output(query, &items, count, "description")),
        None => {
            let mut url = "https://api.search.brave.com/?q=".to_string();
            push_str(&mut url, query);
            Err(ToolError::Degraded { url, reason: "no web results in response".to_string() })
        },
    }
}

// ---------------------------------------------------------------------------
// Tavily
// ---------------------------------------------------------------------------

/// The body of a Tavily request: the key, the query and at most 10 results.
pub open spec fn tavily_body_spec(api_key: Seq<char>, query: Seq<char>, count: usize) -> Seq<char> {
    json_object(
        seq![
            ("api_key"@, json_quote_spec(api_key)),
            ("query"@, json_quote_spec(query)),
            ("max_results"@, decimal(capped(count))),
        ],
    )
}

/// The body of a Tavily request; without a key there is none.
pub fn tavily_request_body(api_key: Option<&str>, query: &str, count: usize) -> (res: Result<
    String,
    ToolError,
>)
    ensures
        match api_key {
            Some(k) => res matches Ok(b) && b@ == tavily_body_spec(k@, query@, count),
            None => res matches Err(e) && e@ == ToolErrorView::NonRetryable(
                "TAVILY_API_KEY is not set"@,
            ),
        },
{
    let key = match api_key {
        Some(k) => k,
        None => {
            return Err(ToolError::NonRetryable("TAVILY_API_KEY is not set".to_string()));
        },
    };
    let c = if count < 10 {
        count
    } else {
        10
    };
    let mut max_text = String::new();
    push_decimal(&mut max_text, c as u64);
    let mut fields: Vec<(String, String)> = Vec::new();
    fields.push(("api_key".to_string(), json_quote(key)));
    fields.push(("query".to_string(), json_quote(query)));
    fields.push(("max_results".to_string(), max_text));
    assert(field_views(fields@) =~= seq![
        ("api_key"@, json_quote_spec(key@)),
        ("query"@, json_quote_spec(query@)),
        ("max_results"@, decimal(capped(count))),
    ]);
    Ok(write_json_object(&fields))
}

/// A Tavily request that was not answered: a timeout or a failed connection can be retried,
/// anything else cannot.
pub fn tavily_send_error(failure: &SendFailure) -> (res: ToolError)
    ensures
        failure.timeout ==> res@ == ToolErrorView::Retryable(
            "Tavily search timed out: "@ + failure.message@,
        ),
        !failure.timeout && failure.connect ==> res@ == ToolErrorView::Retryable(
            "Tavily connection failed: "@ + failure.message@,
        ),
        !failure.timeout && !failure.connect ==> res@ == ToolErrorView::NonRetryable(
            "Tavily request failed: "@ + failure.message@,
        ),
{
    if failure.timeout {
        retryable_error("Tavily search timed out: ", failure.message.as_str())
    } else if failure.connect {
        retryable_error("Tavily connection failed: ", failure.message.as_str())
    } else {
        non_retryable_error("Tavily request failed: ", failure.message.as_str())
    }
}

/// The error for a Tavily response status, as for Brave.
pub fn tavily_status_error(status: &HttpStatus) -> (res: Option<ToolError>)
    ensures
        status.code == 401 ==> (res matches Some(e) && e@ == ToolErrorView::NonRetryable(
            "Tavily API key is invalid or missing"@,
        )),
        status.code == 429 ==> (res matches Some(e) && e@ == ToolErrorView::Retryable(
            "Tavily API rate limit hit — back off and retry"@,
        )),
        (status.code != 401 && status.code != 429 && !is_success_code(status.code)) ==> (res matches Some(
            e,
        ) && e@ == ToolErrorView::NonRetryable("Tavily API returned status: "@ + status.text@)),
        is_success_code(status.code) ==> res is None,
{
    if status.code == 401 {
        return Some(ToolError::NonRetryable("Tavily API key is invalid or missing".to_string()));
    }
    if status.code == 429 {
        return Some(
            ToolError::Retryable("Tavily API rate limit hit — back off and retry".to_string()),
        );
    }
    if !(200 <= status.code && status.code <= 299) {
        return Some(non_retryable_error("Tavily API returned status: ", status.text.as_str()));
    }
    None
}

/// The output of a Tavily search whose body was read as `body` (or failed with its error
/// text): its `results`, with the snippet taken from `content`.
pub open spec fn tavily_results_spec(query: Seq<char>, count: usize, body: Result<Seq<char>, Seq<char>>) -> Result<
    Seq<char>,
    ToolErrorView,
> {
    match body {
        Err(e) => Err(ToolErrorView::NonRetryable("failed to parse Tavily response as JSON: "@ + e)),
        Ok(text) => match json_member_spec(text, "results"@) {
            Some(results) => match json_elements_spec(results) {
                Some(items) => Ok(search_output(query, items, count, "content"@)),
                None => Err(
                    degraded(
                        "https://api.tavily.com/search?query="@ + query,
                        "no results in Tavily response"@,
                    ),
                ),
            },
            None => Err(
                degraded(
                    "https://api.tavily.com/search?query="@ + query,
                    "no results in Tavily response"@,
                ),
            ),
        },
    }
}

/// Shapes a Tavily response body into the tool's output.
pub fn tavily_results(query: &str, count: usize, body: &Result<String, String>) -> (res: Result<
    String,
    ToolError,
>)
    ensures
        result_matches(res, tavily_results_spec(query@, count, body_view(body))),
{
    let text = match body {
        Err(e) => {
            return Err(non_retryable_error("failed to parse Tavily response as JSON: ", e.as_str()));
        },
        Ok(t) => t,
    };
    let items = match json_member(text.as_str(), "results") {
        Some(results) => json_elements(results.as_str()),
        None => None,
    };
    match items {
        Some(items) => Ok(write_search_output(query, &items, count, "content")),
        None => {
            let mut url = "https://api.tavily.com/search?query=".to_string();
            push_str(&mut url, query);
            Err(ToolError::Degraded { url, reason: "no results in Tavily response".to_string() })
        },
    }
}

} // verus!
