use web_search_agent::agent::{
    estimate_context_size, is_retryable_model_error, is_retryable_status, model_status_error_text,
    prune_message_history, read_model_reply, write_request_body, AgentConfig, AgentRun, ChatMessage, IterationStart, ModelOutcome,
    ModelReply, ModelRetry, ModelStep, ModelToolCall, RetryConfig, RetryStep, ToolOutcome,
    SYSTEM_PROMPT,
};
use web_search_agent::types::{TerminationReason, ToolResult};

fn tool_call(id: &str, name: &str, args: &str) -> ModelToolCall {
    ModelToolCall {
        id: Some(id.to_string()),
        name: Some(name.to_string()),
        arguments: Some(args.to_string()),
    }
}

fn tools_reply(calls: Vec<ModelToolCall>) -> ModelOutcome {
    ModelOutcome::Reply {
        reply: ModelReply {
            finish_reason: Some("tool_calls".to_string()),
            content: None,
            tool_calls: Some(calls),
            raw: "{\"role\":\"assistant\"}".to_string(),
        },
        retries: 0,
        duration_ms: 100,
    }
}

fn stop_reply(text: &str) -> ModelOutcome {
    ModelOutcome::Reply {
        reply: ModelReply {
            finish_reason: Some("stop".to_string()),
            content: Some(text.to_string()),
            tool_calls: None,
            raw: "{}".to_string(),
        },
        retries: 1,
        duration_ms: 300,
    }
}

fn start(run: AgentRun) -> AgentRun {
    match run.start_iteration(0) {
        IterationStart::Continue(r) => r,
        IterationStart::Finished(r) => panic!("finished early: {:?}", r.termination_reason),
    }
}

fn tools(run: AgentRun, outcome: ModelOutcome) -> AgentRun {
    match run.on_model_outcome(outcome) {
        ModelStep::RunTools(r) => r,
        ModelStep::Finished(r) => panic!("finished: {:?}", r.termination_reason),
    }
}

fn all_ok(run: &AgentRun, data: &str) -> Vec<Option<ToolOutcome>> {
    run.pending
        .iter()
        .map(|p| match p.refusal {
            Some(_) => None,
            None => Some(ToolOutcome { result: ToolResult::ok(data.to_string()), duration_ms: 7 }),
        })
        .collect()
}

#[test]
fn default_configs() {
    let r = RetryConfig::default();
    assert_eq!((r.max_attempts, r.base_delay_ms, r.max_delay_ms), (4, 1000, 30_000));
    let a = AgentConfig::default();
    assert_eq!(a.max_iterations, 10);
    assert_eq!(a.max_urls_fetched, 5);
    assert_eq!(a.max_run_duration_nanos, 180_000_000_000);
    assert_eq!(a.token_budget_chars, 128_000);
    assert!(SYSTEM_PROMPT.contains("Never fetch more than 5 URLs per research session"));
}

#[test]
fn retryable_statuses() {
    for s in [429u16, 500, 502, 503, 504] {
        assert!(is_retryable_status(s));
    }
    for s in [200u16, 400, 401, 403, 404, 501] {
        assert!(!is_retryable_status(s));
    }
}

#[test]
fn model_errors_that_are_retried() {
    assert!(is_retryable_model_error(&model_status_error_text(503, "unavailable")));
    assert!(is_retryable_model_error("HTTP send failed: operation timed out"));
    assert!(is_retryable_model_error("HTTP send failed: connection refused"));
    assert!(!is_retryable_model_error(&model_status_error_text(401, "bad key")));
    assert_eq!(model_status_error_text(400, "oops"), "400 — oops");
}

#[test]
fn retry_backoff_doubles_and_gives_up() {
    let cfg = RetryConfig::default();
    let mut r = ModelRetry::new();
    let mut waits = vec![];
    for _ in 0..4 {
        match r.next_step(&cfg) {
            RetryStep::Attempt { wait_ms } => waits.push(wait_ms),
            RetryStep::GiveUp(_) => panic!("gave up early"),
        }
        assert_eq!(r.on_error("503 — busy".to_string()), None);
    }
    assert_eq!(waits, vec![None, Some(1000), Some(2000), Some(4000)]);
    match r.next_step(&cfg) {
        RetryStep::GiveUp(m) => {
            assert_eq!(m, "gemini call failed after 4 attempts. Last error: 503 — busy")
        },
        RetryStep::Attempt { .. } => panic!("should give up"),
    }
}

#[test]
fn retry_waits_follow_the_config_and_stop_at_the_ceiling() {
    let cfg = RetryConfig { max_attempts: 8, base_delay_ms: 2000, max_delay_ms: 10_000 };
    let mut r = ModelRetry::new();
    let mut waits = vec![];
    for _ in 0..8 {
        match r.next_step(&cfg) {
            RetryStep::Attempt { wait_ms } => waits.push(wait_ms),
            RetryStep::GiveUp(_) => panic!("gave up early"),
        }
        assert_eq!(r.on_error("429 — slow down".to_string()), None);
    }
    assert_eq!(
        waits,
        vec![None, Some(2000), Some(4000), Some(8000), Some(10_000), Some(10_000), Some(10_000), Some(10_000)]
    );
    let huge = RetryConfig { max_attempts: 200, base_delay_ms: u64::MAX, max_delay_ms: u64::MAX };
    let mut r = ModelRetry { attempt: 150, last_err: String::new() };
    assert!(matches!(r.next_step(&huge), RetryStep::Attempt { wait_ms: Some(u64::MAX) }));
}

#[test]
fn non_retryable_model_error_comes_back_at_once() {
    let mut r = ModelRetry::new();
    assert!(matches!(r.next_step(&RetryConfig::default()), RetryStep::Attempt { wait_ms: None }));
    assert_eq!(r.on_error("401 — unauthorized".to_string()), Some("401 — unauthorized".to_string()));
    assert_eq!(r.retries(), 0);
}

#[test]
fn pruning_drops_the_oldest_exchange() {
    let mut v: Vec<u32> = (0..11).collect();
    prune_message_history(&mut v);
    assert_eq!(v, vec![0, 3, 4, 5, 6, 7, 8, 9, 10]);
    let mut w: Vec<u32> = (0..10).collect();
    prune_message_history(&mut w);
    assert_eq!(w.len(), 10);
}

#[test]
fn context_size_counts_content_and_arguments() {
    let ms = vec![
        ChatMessage::User { content: "héllo".to_string() },
        ChatMessage::Assistant {
            content: None,
            tool_calls: Some(vec![tool_call("1", "search_web", "{\"query\":\"x\"}"), ModelToolCall {
                id: None,
                name: None,
                arguments: None,
            }]),
            raw: "{}".to_string(),
        },
        ChatMessage::Tool { tool_call_id: "1".to_string(), content: "abc".to_string() },
    ];
    assert_eq!(estimate_context_size(&ms), 6 + 13 + 3);
}

#[test]
fn completed_run_builds_the_report() {
    let run = AgentRun::new("What is new in ZK?", AgentConfig::default());
    let run = start(run);
    let run = tools(run, tools_reply(vec![tool_call("c1", "search_web", "{\"query\":\"zk news\"}")]));
    assert_eq!(run.pending.len(), 1);
    let outcomes = all_ok(&run, "{\"query\":\"zk news\",\"result_count\":0,\"results\":[]}");
    let run = run.on_tool_outcomes(outcomes);
    assert_eq!(run.tool_calls_log.len(), 1);
    assert_eq!(run.metrics.successful_tool_calls, 1);
    assert_eq!(run.messages.len(), 3);
    match &run.messages[2] {
        ChatMessage::Tool { tool_call_id, content } => {
            assert_eq!(tool_call_id, "c1");
            assert_eq!(content, "{\"status\":\"success\",\"data\":{\"query\":\"zk news\",\"result_count\":0,\"results\":[]}}");
        },
        other => panic!("unexpected {:?}", other),
    }
    let run = start(run);
    match run.on_model_outcome(stop_reply("ZK proofs are now used widely in rollups across Ethereum.")) {
        ModelStep::Finished(r) => {
            assert_eq!(r.iterations, 2);
            assert!(matches!(r.termination_reason, TerminationReason::Completed));
            let report = r.report.unwrap();
            assert_eq!(report.search_queries, vec!["zk news".to_string()]);
            assert_eq!(report.confidence, "low");
            assert_eq!(r.tool_calls.len(), 1);
        },
        ModelStep::RunTools(_) => panic!("should finish"),
    }
}

#[test]
fn missing_finish_reason_means_stop() {
    let run = start(AgentRun::new("q", AgentConfig::default()));
    let outcome = ModelOutcome::Reply {
        reply: ModelReply { finish_reason: None, content: None, tool_calls: None, raw: "{}".to_string() },
        retries: 0,
        duration_ms: 1,
    };
    match run.on_model_outcome(outcome) {
        ModelStep::Finished(r) => {
            assert!(matches!(r.termination_reason, TerminationReason::Completed));
            assert_eq!(r.report.unwrap().answer, "");
        },
        _ => panic!(),
    }
}

#[test]
fn max_iterations_end_the_run() {
    let cfg = AgentConfig { max_iterations: 1, ..AgentConfig::default() };
    let run = start(AgentRun::new("q", cfg));
    let run = tools(run, tools_reply(vec![tool_call("a", "get_weather", "{\"city\":\"Paris\"}")]));
    let o = all_ok(&run, "{}");
    let run = run.on_tool_outcomes(o);
    match run.start_iteration(0) {
        IterationStart::Finished(r) => {
            assert_eq!(r.iterations, 1);
            assert!(matches!(r.termination_reason, TerminationReason::MaxIterationsReached));
            assert!(r.report.is_none());
        },
        IterationStart::Continue(_) => panic!("should stop"),
    }
}

#[test]
fn wall_clock_ceiling_ends_the_run() {
    let run = AgentRun::new("q", AgentConfig::default());
    match run.start_iteration(180_000_000_001) {
        IterationStart::Finished(r) => match r.termination_reason {
            TerminationReason::FatalError(m) => assert_eq!(m, "run exceeded max_run_duration"),
            other => panic!("{:?}", other),
        },
        IterationStart::Continue(_) => panic!("should stop"),
    }
    let run = AgentRun::new("q", AgentConfig::default());
    assert!(matches!(run.start_iteration(180_000_000_000), IterationStart::Continue(_)));
}

#[test]
fn repeated_call_is_a_loop() {
    let run = start(AgentRun::new("q", AgentConfig::default()));
    let run = tools(run, tools_reply(vec![tool_call("a", "search_web", "{\"query\":\"x\"}")]));
    let o = all_ok(&run, "{}");
    let run = start(run.on_tool_outcomes(o));
    match run.on_model_outcome(tools_reply(vec![tool_call("b", "search_web", "{\"query\":\"x\"}")])) {
        ModelStep::Finished(r) => {
            assert!(matches!(r.termination_reason, TerminationReason::LoopDetected));
            assert_eq!(r.tool_calls.len(), 1);
        },
        _ => panic!("loop not detected"),
    }
}

#[test]
fn repeat_within_one_batch_is_a_loop() {
    let run = start(AgentRun::new("q", AgentConfig::default()));
    let calls = vec![
        tool_call("a", "fetch_url", "{\"url\":\"https://a.org\"}"),
        tool_call("b", "fetch_url", "{\"url\":\"https://a.org\"}"),
    ];
    assert!(matches!(run.on_model_outcome(tools_reply(calls)), ModelStep::Finished(_)));
}

#[test]
fn calls_older_than_three_are_not_a_loop() {
    let run = start(AgentRun::new("q", AgentConfig::default()));
    let calls = vec![
        tool_call("a", "search_web", "{\"query\":\"1\"}"),
        tool_call("b", "search_web", "{\"query\":\"2\"}"),
        tool_call("c", "search_web", "{\"query\":\"3\"}"),
        tool_call("d", "search_web", "{\"query\":\"4\"}"),
    ];
    let run = tools(run, tools_reply(calls));
    let o = all_ok(&run, "{}");
    let run = start(run.on_tool_outcomes(o));
    let run = tools(run, tools_reply(vec![tool_call("e", "search_web", "{\"query\":\"1\"}")]));
    assert_eq!(run.recent_fingerprints.len(), 5);
    assert_eq!(run.recent_fingerprints[4], "search_web:{\"query\":\"1\"}");
}

#[test]
fn fetches_beyond_the_limit_are_refused() {
    let cfg = AgentConfig { max_urls_fetched: 2, ..AgentConfig::default() };
    let run = start(AgentRun::new("q", cfg));
    let calls = vec![
        tool_call("a", "fetch_url", "{\"url\":\"https://a.org\"}"),
        tool_call("b", "search_web", "{\"query\":\"x\"}"),
        tool_call("c", "fetch_url", "{\"url\":\"https://b.org\"}"),
        tool_call("d", "fetch_url", "{\"url\":\"https://c.org\"}"),
    ];
    let run = tools(run, tools_reply(calls));
    assert!(run.pending[0].refusal.is_none());
    assert!(run.pending[1].refusal.is_none());
    assert!(run.pending[2].refusal.is_none());
    match &run.pending[3].refusal {
        Some(ToolResult::Error { category, message }) => {
            assert_eq!(category, "non_retryable");
            assert_eq!(message, "URL fetch limit reached (2 max). Synthesize from information gathered so far.");
        },
        other => panic!("{:?}", other),
    }
    let o = all_ok(&run, "{\"content\":\"x\",\"url\":\"https://a.org\"}");
    let run = run.on_tool_outcomes(o);
    assert_eq!(run.metrics.urls_fetched, 2);
    assert_eq!(run.metrics.total_tool_calls, 4);
    assert_eq!(run.metrics.failed_tool_calls, 1);
    assert_eq!(run.tool_calls_log[3].duration_ms, 0);
}

#[test]
fn invalid_arguments_are_recorded_as_empty_object() {
    let run = start(AgentRun::new("q", AgentConfig::default()));
    let run = tools(run, tools_reply(vec![tool_call("a", "get_weather", "{not json")]));
    assert_eq!(run.pending[0].args, "{}");
    let run = start(AgentRun::new("q", AgentConfig::default()));
    let bare = ModelToolCall { id: None, name: None, arguments: None };
    let run = tools(run, tools_reply(vec![bare]));
    assert_eq!(run.pending[0].tool_id, "");
    assert_eq!(run.pending[0].tool_name, "");
    assert_eq!(run.pending[0].args, "{}");
}

#[test]
fn failed_model_call_is_fatal() {
    let run = start(AgentRun::new("q", AgentConfig::default()));
    match run.on_model_outcome(ModelOutcome::Failed("boom".to_string())) {
        ModelStep::Finished(r) => match r.termination_reason {
            TerminationReason::FatalError(m) => assert_eq!(m, "boom"),
            other => panic!("{:?}", other),
        },
        _ => panic!(),
    }
}

#[test]
fn unexpected_finish_reason_is_fatal() {
    let run = start(AgentRun::new("q", AgentConfig::default()));
    let outcome = ModelOutcome::Reply {
        reply: ModelReply {
            finish_reason: Some("length".to_string()),
            content: Some("cut".to_string()),
            tool_calls: None,
            raw: "{}".to_string(),
        },
        retries: 0,
        duration_ms: 1,
    };
    match run.on_model_outcome(outcome) {
        ModelStep::Finished(r) => match r.termination_reason {
            TerminationReason::FatalError(m) => assert_eq!(m, "unexpected finish_reason: length"),
            other => panic!("{:?}", other),
        },
        _ => panic!(),
    }
}

#[test]
fn large_context_is_pruned() {
    let cfg = AgentConfig { token_budget_chars: 10, ..AgentConfig::default() };
    let mut run = start(AgentRun::new("a question long enough", cfg));
    for i in 0..5 {
        let args = format!("{{\"query\":\"{}\"}}", i);
        run = tools(run, tools_reply(vec![tool_call(&i.to_string(), "search_web", &args)]));
        let o = all_ok(&run, "{}");
        run = run.on_tool_outcomes(o);
        assert!(run.context_fits());
        run = start(run);
    }
    assert!(run.messages.len() <= 11);
    match &run.messages[0] {
        ChatMessage::User { content } => assert_eq!(content, "a question long enough"),
        other => panic!("{:?}", other),
    }
    assert!(run.metrics.estimated_tokens_used > 0);
}

#[test]
fn chat_completions_are_read() {
    let response = r#"{"id":"x","choices":[{"index":0,"finish_reason":"tool_calls","message":{"role":"assistant","content":null,"tool_calls":[{"id":"call_1","type":"function","function":{"name":"search_web","arguments":"{\"query\":\"rust\"}"}},{"id":7,"function":{"name":"fetch_url"}}]}}]}"#;
    let reply = read_model_reply(response);
    assert_eq!(reply.finish_reason.as_deref(), Some("tool_calls"));
    assert_eq!(reply.content, None);
    let calls = reply.tool_calls.unwrap();
    assert_eq!(calls.len(), 2);
    assert_eq!(calls[0].id.as_deref(), Some("call_1"));
    assert_eq!(calls[0].name.as_deref(), Some("search_web"));
    assert_eq!(calls[0].arguments.as_deref(), Some("{\"query\":\"rust\"}"));
    assert_eq!(calls[1].id, None);
    assert_eq!(calls[1].name.as_deref(), Some("fetch_url"));
    assert_eq!(calls[1].arguments, None);
    let raw: serde_json::Value = serde_json::from_str(&reply.raw).unwrap();
    assert_eq!(raw["role"], "assistant");
    assert_eq!(raw["tool_calls"][0]["id"], "call_1");

    let stop = read_model_reply(r#"{"choices":[{"finish_reason":"stop","message":{"role":"assistant","content":"All done."}}]}"#);
    assert_eq!(stop.finish_reason.as_deref(), Some("stop"));
    assert_eq!(stop.content.as_deref(), Some("All done."));
    assert!(stop.tool_calls.is_none());

    let empty = read_model_reply("{}");
    assert_eq!(empty.finish_reason, None);
    assert_eq!(empty.content, None);
    assert!(empty.tool_calls.is_none());
    assert_eq!(empty.raw, "null");
}

#[test]
fn requests_carry_the_conversation_behind_the_system_prompt() {
    let messages = vec![
        ChatMessage::User { content: "What is \"Rust\"?".to_string() },
        ChatMessage::Assistant {
            content: None,
            tool_calls: None,
            raw: r#"{"role":"assistant","tool_calls":[{"id":"c1"}]}"#.to_string(),
        },
        ChatMessage::Tool { tool_call_id: "c1".to_string(), content: "{\"status\":\"success\"}".to_string() },
        ChatMessage::Assistant { content: None, tool_calls: None, raw: "not json".to_string() },
    ];
    let tools = vec![r#"{"type":"function"}"#.to_string()];
    let body: serde_json::Value = serde_json::from_str(&write_request_body(&messages, &tools)).unwrap();
    assert_eq!(body["model"], "gemini-2.5-flash");
    assert_eq!(body["temperature"], 0.1);
    assert_eq!(body["tool_choice"], "auto");
    assert_eq!(body["tools"][0]["type"], "function");
    let sent = body["messages"].as_array().unwrap();
    assert_eq!(sent.len(), 5);
    assert_eq!(sent[0]["role"], "system");
    assert_eq!(sent[0]["content"], SYSTEM_PROMPT);
    assert_eq!(sent[1]["role"], "user");
    assert_eq!(sent[1]["content"], "What is \"Rust\"?");
    assert_eq!(sent[2]["tool_calls"][0]["id"], "c1");
    assert_eq!(sent[3]["role"], "tool");
    assert_eq!(sent[3]["tool_call_id"], "c1");
    assert_eq!(sent[3]["content"], "{\"status\":\"success\"}");
    assert!(sent[4].is_null());
}
