use web_search_agent::json::{json_elements, json_member, json_quote, json_string, json_u64, json_valid};
use web_search_agent::metrics::RunMetrics;
use web_search_agent::types::{ToolError, ToolResult};

#[test]
fn errors_display_with_their_category() {
    assert_eq!(ToolError::Retryable("slow".to_string()).to_string(), "retryable: slow");
    assert_eq!(ToolError::NonRetryable("bad".to_string()).to_string(), "non_retryable: bad");
    let d = ToolError::Degraded { url: "https://a".to_string(), reason: "404".to_string() };
    assert_eq!(d.to_string(), "degraded(https://a): 404");
}

#[test]
fn errors_become_error_results() {
    match ToolResult::from_error(&ToolError::Degraded { url: "u".to_string(), reason: "r".to_string() }) {
        ToolResult::Error { category, message } => {
            assert_eq!(category, "degraded");
            assert_eq!(message, "u: r");
        },
        _ => panic!(),
    }
    match ToolResult::from_error(&ToolError::Retryable("x".to_string())) {
        ToolResult::Error { category, message } => assert_eq!((category.as_str(), message.as_str()), ("retryable", "x")),
        _ => panic!(),
    }
    match ToolResult::from_error(&ToolError::NonRetryable("y".to_string())) {
        ToolResult::Error { category, .. } => assert_eq!(category, "non_retryable"),
        _ => panic!(),
    }
}

#[test]
fn results_as_json() {
    assert_eq!(ToolResult::ok("[1]".to_string()).to_json(), "{\"status\":\"success\",\"data\":[1]}");
    let e = ToolResult::Error { category: "degraded".to_string(), message: "a \"b\"".to_string() };
    assert_eq!(e.to_json(), "{\"status\":\"error\",\"category\":\"degraded\",\"message\":\"a \\\"b\\\"\"}");
}

#[test]
fn json_reads() {
    assert_eq!(json_member(r#"{"a":1,"b":"x"}"#, "b"), Some("\"x\"".to_string()));
    assert_eq!(json_member(r#"{"a":{"c":[1, 2]}}"#, "a"), Some("{\"c\":[1,2]}".to_string()));
    assert_eq!(json_member("[1]", "a"), None);
    assert_eq!(json_member("{", "a"), None);
    assert_eq!(json_elements("[1, \"a\", null]"), Some(vec!["1".to_string(), "\"a\"".to_string(), "null".to_string()]));
    assert_eq!(json_elements("{}"), None);
    assert_eq!(json_string("\"h\\u00e9\""), Some("hé".to_string()));
    assert_eq!(json_string("3"), None);
    assert_eq!(json_u64("5"), Some(5));
    assert_eq!(json_u64("5.0"), None);
    assert_eq!(json_u64("-1"), None);
    assert_eq!(json_quote("a\nb"), "\"a\\nb\"");
    assert!(json_valid("{}"));
    assert!(!json_valid("{"));
}

#[test]
fn metrics_count_calls() {
    let mut m = RunMetrics::default();
    assert_eq!(m.avg_model_latency_ms(), 0);
    m.record_tool_success(10);
    m.record_tool_failure(5);
    m.record_model_call(100, 2);
    m.record_model_call(51, 0);
    assert_eq!((m.total_tool_calls, m.successful_tool_calls, m.failed_tool_calls), (2, 1, 1));
    assert_eq!(m.total_tool_latency_ms, 15);
    assert_eq!((m.model_calls, m.model_retries), (2, 2));
    assert_eq!(m.avg_model_latency_ms(), 75);
}

#[test]
fn strings_are_quoted_with_json_escapes() {
    assert_eq!(json_quote("plain é ✓"), "\"plain é ✓\"");
    assert_eq!(json_quote("a\"b\\c"), "\"a\\\"b\\\\c\"");
    assert_eq!(json_quote("\u{8}\t\n\u{c}\r"), "\"\\b\\t\\n\\f\\r\"");
    assert_eq!(json_quote("\u{1}\u{1f}\u{7f}"), "\"\\u0001\\u001f\u{7f}\"");
}
