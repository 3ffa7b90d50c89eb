use web_search_agent::tools::fetch_url_tool;
use web_search_agent::tools::get_crypto_price_tool;
use web_search_agent::tools::get_weather_tool;
use web_search_agent::tools::search_web_tool::{self, SearchBackend};
use web_search_agent::tools::tool_registry::ToolRegistry;
use web_search_agent::tools::{HttpStatus, SendFailure};
use web_search_agent::types::ToolError;

fn status(code: u16, text: &str) -> HttpStatus {
    HttpStatus { code, text: text.to_string() }
}

fn value(s: &str) -> serde_json::Value {
    serde_json::from_str(s).unwrap()
}

#[test]
fn schemas_are_valid_json_naming_their_tools() {
    let s = value(&search_web_tool::description());
    assert_eq!(s["type"], "function");
    assert_eq!(s["function"]["name"], "search_web");
    assert_eq!(s["function"]["parameters"]["required"][0], "query");
    assert_eq!(s["function"]["parameters"]["properties"]["count"]["type"], "integer");
    let f = value(&fetch_url_tool::description());
    assert_eq!(f["function"]["name"], "fetch_url");
    assert!(f["function"]["description"].as_str().unwrap().starts_with("Fetch and read"));
    let w = value(&get_weather_tool::description());
    assert_eq!(w["name"], "get_weather");
    assert_eq!(w["parameters"]["required"][0], "city");
    let c = value(&get_crypto_price_tool::description());
    assert_eq!(c["name"], "get_crypto_price");
    assert_eq!(c["parameters"]["properties"]["coin_id"]["type"], "string");
}

#[test]
fn search_arguments() {
    let r = search_web_tool::prepare("{\"query\":\"zk\",\"count\":3}", false).unwrap();
    assert_eq!((r.query.as_str(), r.count), ("zk", 3));
    assert!(matches!(r.backend, SearchBackend::Brave));
    let r = search_web_tool::prepare("{\"query\":\"zk\",\"count\":\"3\"}", true).unwrap();
    assert_eq!(r.count, 5);
    assert!(matches!(r.backend, SearchBackend::Tavily));
    match search_web_tool::prepare("{\"count\":3}", false) {
        Err(ToolError::NonRetryable(m)) => assert_eq!(m, "missing required parameter: query"),
        other => panic!("{:?}", other),
    }
}

#[test]
fn brave_url_encodes_and_caps() {
    assert_eq!(
        search_web_tool::brave_url("zk proofs/é", 20),
        "https://api.search.brave.com/res/v1/web/search?q=zk%20proofs%2F%C3%A9&count=10"
    );
    assert_eq!(
        search_web_tool::brave_url("a-b_c.d~", 3),
        "https://api.search.brave.com/res/v1/web/search?q=a-b_c.d~&count=3"
    );
}

#[test]
fn brave_errors() {
    let f = SendFailure { timeout: true, connect: true, message: "t".to_string() };
    assert!(matches!(search_web_tool::brave_send_error(&f), ToolError::Retryable(m) if m == "search timed out: t"));
    let f = SendFailure { timeout: false, connect: true, message: "c".to_string() };
    assert!(matches!(search_web_tool::brave_send_error(&f), ToolError::Retryable(m) if m == "connection failed: c"));
    let f = SendFailure { timeout: false, connect: false, message: "o".to_string() };
    assert!(matches!(search_web_tool::brave_send_error(&f), ToolError::NonRetryable(m) if m == "request failed: o"));
    assert!(matches!(search_web_tool::brave_status_error(&status(401, "401 Unauthorized")), Some(ToolError::NonRetryable(m)) if m == "Brave API key is invalid or missing"));
    assert!(matches!(search_web_tool::brave_status_error(&status(429, "429 Too Many Requests")), Some(ToolError::Retryable(_))));
    assert!(matches!(search_web_tool::brave_status_error(&status(500, "500 Internal Server Error")), Some(ToolError::NonRetryable(m)) if m == "Brave API returned status: 500 Internal Server Error"));
    assert!(search_web_tool::brave_status_error(&status(200, "200 OK")).is_none());
}

#[test]
fn brave_results_are_shaped() {
    let body = r#"{"web":{"results":[{"title":"A","url":"https://a","description":"da"},{"title":"B","url":"https://b"},{"title":"C"}]}}"#;
    let out = search_web_tool::brave_results("q", 2, &Ok(body.to_string())).unwrap();
    let v = value(&out);
    assert_eq!(v["query"], "q");
    assert_eq!(v["result_count"], 2);
    assert_eq!(v["results"][0]["snippet"], "da");
    assert_eq!(v["results"][1]["snippet"], "");
    assert_eq!(v["results"][1]["url"], "https://b");
    match search_web_tool::brave_results("q q", 2, &Ok("{\"web\":{}}".to_string())) {
        Err(ToolError::Degraded { url, reason }) => {
            assert_eq!(url, "https://api.search.brave.com/?q=q q");
            assert_eq!(reason, "no web results in response");
        },
        other => panic!("{:?}", other),
    }
    assert!(matches!(search_web_tool::brave_results("q", 2, &Err("bad".to_string())), Err(ToolError::NonRetryable(m)) if m == "failed to parse Brave response as JSON: bad"));
}

#[test]
fn tavily_requests_and_results() {
    let b = search_web_tool::tavily_request_body(Some("k"), "zk", 12).unwrap();
    let v = value(&b);
    assert_eq!(v["api_key"], "k");
    assert_eq!(v["max_results"], 10);
    assert!(matches!(search_web_tool::tavily_request_body(None, "zk", 2), Err(ToolError::NonRetryable(m)) if m == "TAVILY_API_KEY is not set"));
    let out = search_web_tool::tavily_results("zk", 5, &Ok(r#"{"results":[{"title":"T","url":"u","content":"c"}]}"#.to_string())).unwrap();
    assert_eq!(value(&out)["results"][0]["snippet"], "c");
    assert!(matches!(search_web_tool::tavily_results("zk", 5, &Ok("{}".to_string())), Err(ToolError::Degraded { url, .. }) if url == "https://api.tavily.com/search?query=zk"));
    assert!(matches!(search_web_tool::tavily_status_error(&status(401, "401 Unauthorized")), Some(ToolError::NonRetryable(m)) if m == "Tavily API key is invalid or missing"));
    let f = SendFailure { timeout: true, connect: false, message: "t".to_string() };
    assert!(matches!(search_web_tool::tavily_send_error(&f), ToolError::Retryable(m) if m == "Tavily search timed out: t"));
}

#[test]
fn fetch_checks_urls_and_statuses() {
    assert!(fetch_url_tool::check_url("https://a.org").is_ok());
    assert!(matches!(fetch_url_tool::check_url("ftp://a.org"), Err(ToolError::NonRetryable(m)) if m == "invalid URL — must start with http:// or https://: ftp://a.org"));
    assert!(matches!(fetch_url_tool::parse_arguments("{}"), Err(ToolError::NonRetryable(m)) if m == "missing required parameter: url"));
    assert!(matches!(fetch_url_tool::status_error("u", &status(403, "403 Forbidden")), Some(ToolError::Degraded { reason, .. }) if reason == "access denied (403)"));
    assert!(matches!(fetch_url_tool::status_error("u", &status(401, "401 Unauthorized")), Some(ToolError::Degraded { reason, .. }) if reason == "access denied (401)"));
    assert!(fetch_url_tool::status_error("u", &status(204, "204 No Content")).is_none());
    assert!(matches!(fetch_url_tool::status_error("u", &status(404, "404 Not Found")), Some(ToolError::Degraded { reason, .. }) if reason == "page not found (404)"));
    assert!(matches!(fetch_url_tool::status_error("u", &status(500, "500 Internal Server Error")), Some(ToolError::Degraded { reason, .. }) if reason == "HTTP error: 500 Internal Server Error"));
    let f = SendFailure { timeout: true, connect: false, message: "slow".to_string() };
    assert!(matches!(fetch_url_tool::send_error("u", &f), ToolError::Degraded { reason, .. } if reason == "timed out after 15s: slow"));
    assert!(matches!(fetch_url_tool::body_error("u", "eof"), ToolError::Degraded { reason, .. } if reason == "failed to read response body: eof"));
}

#[test]
fn page_text_is_extracted() {
    let html = "<html><body><h1>Title</h1><p>First <b>bold</b> para</p><p>First <b>bold</b> para</p><div>skip</div><ul><li> </li><li>item</li></ul></body></html>";
    assert_eq!(fetch_url_tool::extract_clean_text(html), "Title\nFirst  bold  para\nitem");
}

#[test]
fn page_results_are_cut_at_3000_bytes() {
    let short = fetch_url_tool::page_result("https://a.org", "hello").unwrap();
    let v = value(&short);
    assert_eq!(v["content"], "hello");
    assert_eq!(v["content_length"], 5);
    assert_eq!(v["url"], "https://a.org");
    let long = "a".repeat(3500);
    let v = value(&fetch_url_tool::page_result("u", &long).unwrap());
    assert_eq!(v["content_length"], 3015);
    assert!(v["content"].as_str().unwrap().ends_with("... [truncated]"));
    // the 3000th byte falls inside an `é`: the cut ends before it
    let odd = format!("{}{}", "a".repeat(2999), "é".repeat(10));
    let v = value(&fetch_url_tool::page_result("u", &odd).unwrap());
    assert_eq!(v["content"], format!("{}... [truncated]", "a".repeat(2999)));
    assert_eq!(v["content_length"], 3014);
    let exact = format!("{}{}", "a".repeat(2998), "é".repeat(10));
    let v = value(&fetch_url_tool::page_result("u", &exact).unwrap());
    assert_eq!(v["content"], format!("{}é... [truncated]", "a".repeat(2998)));
    assert_eq!(v["content_length"], 3015);
    let v = value(&fetch_url_tool::page_result("u", &"é".repeat(1500)).unwrap());
    assert_eq!(v["content"], "é".repeat(1500));
    assert_eq!(v["content_length"], 3000);
    assert!(matches!(fetch_url_tool::page_result("u", "  \n "), Err(ToolError::Degraded { reason, .. }) if reason == "page contained no extractable text content"));
}

#[test]
fn long_blank_pages_are_degraded() {
    // 3001 bytes of whitespace whose 3000th byte falls inside an ideographic space
    let blank = format!("{}{}", " ".repeat(2998), "\u{3000}");
    assert!(matches!(fetch_url_tool::page_result("u", &blank), Err(ToolError::Degraded { url, .. }) if url == "u"));
}

#[test]
fn weather_requests_and_results() {
    assert_eq!(
        get_weather_tool::weather_url("São Paulo", "KEY"),
        "https://api.openweathermap.org/data/2.5/weather?q=S%C3%A3o%20Paulo&appid=KEY&units=metric"
    );
    let body = r#"{"main":{"temp":12.5,"feels_like":11,"humidity":80},"weather":[{"description":"light rain"}],"wind":{"speed":3.1}}"#;
    let v = value(&get_weather_tool::weather_result("London", &Ok(body.to_string())).unwrap());
    assert_eq!(v["city"], "London");
    assert_eq!(v["temperature_celsius"], 12.5);
    assert_eq!(v["conditions"], "light rain");
    assert_eq!(v["wind_speed_ms"], 3.1);
    let v = value(&get_weather_tool::weather_result("X", &Ok("{}".to_string())).unwrap());
    assert!(v["temperature_celsius"].is_null());
    assert!(v["conditions"].is_null());
    assert!(matches!(get_weather_tool::status_error("Atlantis", &status(404, "404 Not Found")), Some(ToolError::Degraded { url, reason }) if url == "weather for Atlantis" && reason == "city 'Atlantis' not found"));
    assert!(matches!(get_weather_tool::status_error("X", &status(503, "503 Service Unavailable")), Some(ToolError::Retryable(m)) if m == "weather API error: 503 Service Unavailable"));
    assert!(matches!(get_weather_tool::send_error("x"), ToolError::Retryable(m) if m == "weather request failed: x"));
}

#[test]
fn crypto_requests_and_results() {
    assert_eq!(
        get_crypto_price_tool::price_url("bitcoin"),
        "https://api.coingecko.com/api/v3/simple/price?ids=bitcoin&vs_currencies=usd&include_24hr_change=true&include_market_cap=true"
    );
    let body = r#"{"bitcoin":{"usd":45000,"usd_24h_change":2.3,"usd_market_cap":9e11}}"#;
    let v = value(&get_crypto_price_tool::price_result("bitcoin", &Ok(body.to_string())).unwrap());
    assert_eq!(v["coin_id"], "bitcoin");
    assert_eq!(v["price_usd"], 45000);
    assert_eq!(v["change_24h_pct"], 2.3);
    assert!(matches!(get_crypto_price_tool::price_result("dogo", &Ok(body.to_string())), Err(ToolError::Degraded { url, reason }) if url == "coingecko:dogo" && reason == "coin 'dogo' not found — check the CoinGecko coin ID"));
    assert!(matches!(get_crypto_price_tool::status_error(&status(429, "429 Too Many Requests")), Some(ToolError::Retryable(m)) if m == "CoinGecko rate limit hit"));
}

#[test]
fn registry_reads_back_what_was_registered() {
    let mut r: ToolRegistry<u32> = ToolRegistry::new();
    r.register("a".to_string(), 1);
    r.register("b".to_string(), 2);
    r.register("a".to_string(), 3);
    assert_eq!(r.len(), 2);
    assert_eq!(*r.resolve("a").unwrap(), 3);
    assert_eq!(*r.resolve("b").unwrap(), 2);
    assert_eq!(*r.tool_at(0), 3);
    match r.resolve("c") {
        Err(ToolError::NonRetryable(m)) => assert_eq!(m, "unknown tool: c"),
        other => panic!("{:?}", other),
    }
}
