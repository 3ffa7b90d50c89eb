use web_search_agent::structured::{
    build_search_report, derive_confidence, extract_key_findings, extract_limitations,
    extract_search_queries, extract_sources, url_to_title,
};
use web_search_agent::types::{ToolCall, ToolResult};

fn call(name: &str, input: &str, output: ToolResult) -> ToolCall {
    ToolCall { tool_name: name.to_string(), input: input.to_string(), output, duration_ms: 5 }
}

fn fetched(url: &str, content: &str) -> ToolCall {
    let data = format!(
        "{{\"content\":{},\"content_length\":{},\"url\":{}}}",
        serde_json::to_string(content).unwrap(),
        content.len(),
        serde_json::to_string(url).unwrap()
    );
    call("fetch_url", &format!("{{\"url\":\"{}\"}}", url), ToolResult::ok(data))
}

fn degraded(name: &str, message: &str) -> ToolCall {
    call(
        name,
        "{}",
        ToolResult::Error { category: "degraded".to_string(), message: message.to_string() },
    )
}

#[test]
fn url_title_keeps_hyphens_of_the_last_segment() {
    assert_eq!(url_to_title("https://vitalik.ca/posts/zk-proofs"), "vitalik.ca — zk-proofs");
}

#[test]
fn url_title_reads_underscores_as_spaces() {
    assert_eq!(url_to_title("https://ethereum.org/en/layer_2/"), "ethereum.org — layer 2");
}

#[test]
fn url_title_of_a_bare_domain() {
    assert_eq!(url_to_title("http://example.com"), "example.com");
    assert_eq!(url_to_title("https://example.com/"), "example.com");
    assert_eq!(url_to_title("example.com/a/b/"), "example.com — b");
}

#[test]
fn url_title_strips_repeated_protocols() {
    assert_eq!(url_to_title("https://https://http://a.b/c"), "a.b — c");
}

#[test]
fn key_findings_keep_long_sentences_only() {
    let answer = "Short one. This sentence is clearly longer than forty bytes in total.\nTiny\nAnother sentence that is long enough to count as a finding";
    let f = extract_key_findings(answer);
    assert_eq!(
        f,
        vec![
            "This sentence is clearly longer than forty bytes in total.".to_string(),
            "Another sentence that is long enough to count as a finding.".to_string(),
        ]
    );
}

#[test]
fn key_findings_take_at_most_five() {
    let s = "A sentence that is certainly longer than forty bytes long";
    let answer = vec![s; 7].join(". ");
    let f = extract_key_findings(&answer);
    assert_eq!(f.len(), 5);
    for x in f {
        assert!(x.ends_with('.'));
        assert!(x.len() > 41);
    }
}

#[test]
fn key_findings_count_bytes_not_characters() {
    // 21 characters of two bytes each: 42 bytes, longer than 40.
    let s = "é".repeat(21);
    assert_eq!(extract_key_findings(&s), vec![format!("{}.", s)]);
    let t = "é".repeat(20);
    assert!(extract_key_findings(&t).is_empty());
}

#[test]
fn sources_come_from_successful_fetches() {
    let log = vec![
        fetched("https://a.org/x_y", "hello"),
        degraded("fetch_url", "https://b.org: access denied (403 Forbidden)"),
        call("search_web", "{\"query\":\"q\"}", ToolResult::ok("{}".to_string())),
        fetched("", "no url"),
    ];
    let s = extract_sources(&log);
    assert_eq!(s.len(), 1);
    assert_eq!(s[0].url, "https://a.org/x_y");
    assert_eq!(s[0].title, "a.org — x y");
    assert_eq!(s[0].snippet, "hello");
}

#[test]
fn source_snippets_hold_300_characters() {
    let content = "ü".repeat(400);
    let s = extract_sources(&vec![fetched("https://a.org", &content)]);
    assert_eq!(s[0].snippet.chars().count(), 300);
}

#[test]
fn confidence_follows_successful_fetches() {
    let none: Vec<ToolCall> = vec![];
    assert_eq!(derive_confidence(&none), "low");
    let one = vec![fetched("https://a.org", "x"), degraded("fetch_url", "y")];
    assert_eq!(derive_confidence(&one), "medium");
    let three = vec![
        fetched("https://a.org", "x"),
        fetched("https://b.org", "x"),
        fetched("https://c.org", "x"),
    ];
    assert_eq!(derive_confidence(&three), "high");
}

#[test]
fn search_queries_come_from_search_calls() {
    let log = vec![
        call("search_web", "{\"query\":\"zk rollups\"}", ToolResult::ok("{}".to_string())),
        call("search_web", "{}", ToolResult::ok("{}".to_string())),
        call("fetch_url", "{\"query\":\"not a search\"}", ToolResult::ok("{}".to_string())),
        call(
            "search_web",
            "{\"query\":\"plonk\"}",
            ToolResult::Error { category: "retryable".to_string(), message: "x".to_string() },
        ),
    ];
    assert_eq!(extract_search_queries(&log), vec!["zk rollups".to_string(), "plonk".to_string()]);
}

#[test]
fn limitations_list_degraded_failures() {
    let log = vec![
        degraded("fetch_url", "https://b.org: access denied (403 Forbidden)"),
        call(
            "get_weather",
            "{}",
            ToolResult::Error { category: "retryable".to_string(), message: "x".to_string() },
        ),
        degraded("get_weather", "weather for Atlantis: city 'Atlantis' not found"),
    ];
    assert_eq!(
        extract_limitations(&log),
        "Could not access: fetch_url: https://b.org: access denied (403 Forbidden); get_weather: weather for Atlantis: city 'Atlantis' not found"
    );
}

#[test]
fn no_limitations_without_degraded_failures() {
    let log = vec![fetched("https://a.org", "x")];
    assert_eq!(extract_limitations(&log), "No limitations — all sources were accessible.");
}

#[test]
fn report_assembles_all_parts() {
    let log = vec![
        call("search_web", "{\"query\":\"zk\"}", ToolResult::ok("{}".to_string())),
        fetched("https://vitalik.ca/general/zk-roadmap", "content"),
    ];
    let answer = "ZK rollups have matured a lot in the last year or two. Short.";
    let r = build_search_report("What about ZK?", answer, &log);
    assert_eq!(r.question, "What about ZK?");
    assert_eq!(r.answer, answer);
    assert_eq!(r.sources.len(), 1);
    assert_eq!(r.sources[0].title, "vitalik.ca — zk-roadmap");
    assert_eq!(r.confidence, "medium");
    assert_eq!(r.key_findings, vec!["ZK rollups have matured a lot in the last year or two.".to_string()]);
    assert_eq!(r.search_queries, vec!["zk".to_string()]);
    assert_eq!(r.limitations, "No limitations — all sources were accessible.");
}
