//! The agent's decisions: its limits, the retry policy of model calls, the context budget,
//! and the run itself as a state machine driven by model replies and tool outcomes.
use vstd::prelude::*;
use vstd::arithmetic::power2::pow2;
use vstd::utf8::encode_utf8;
use crate::json::{
    field_views, json_array, json_elements, json_elements_spec, json_first, json_first_of,
    json_index, json_index_of, json_object, json_quote, json_quote_spec, json_str_field,
    json_str_field_of, json_valid, json_valid_spec, write_json_array, write_json_object,
};
use crate::metrics::RunMetrics;
use crate::structured::{build_search_report, log_view, search_report, successful_fetches};
use crate::text::{contains, contains_str, occurs_at, copy_str, decimal, push_decimal, push_str, str_eq, utf8_len};
use crate::types::{
    AgentRunResult, AgentRunResultView, SearchReportView, TerminationReason,
    TerminationReasonView, ToolCall, ToolCallView, ToolResult, ToolResultView,
};

verus! {

/// The instructions that open every conversation with the model.
pub const SYSTEM_PROMPT: &'static str = "You are a research agent. Your job is to answer the user's research question thoroughly using the available tools.\n\nStrategy:\n1. Start with search_web to find relevant sources\n2. Use fetch_url to read the full content of the most promising URLs\n3. Use get_weather or get_crypto_price if the question requires it\n4. When you have enough information, produce a final answer\n\nRules:\n- Never fetch more than 5 URLs per research session\n- Always cite your sources with URLs\n- If a tool fails, note it in limitations and continue\n- Produce a final answer even with partial information";

#[derive(Debug, Clone, Copy)]
pub struct RetryConfig {
    pub max_attempts: u32,
    pub base_delay_ms: u64,
    pub max_delay_ms: u64,
}

impl Default for RetryConfig {
    fn default() -> (res: RetryConfig)
        ensures
            res.max_attempts == 4,
            res.base_delay_ms == 1000,
            res.max_delay_ms == 30_000,
    {
        RetryConfig { max_attempts: 4, base_delay_ms: 1000, max_delay_ms: 30_000 }
    }
}

/// The limits of one run.
#[derive(Debug, Clone, Copy)]
pub struct AgentConfig {
    pub max_iterations: u32,
    pub max_urls_fetched: usize,
    /// The wall-clock ceiling of a run, in nanoseconds.
    pub max_run_duration_nanos: u128,
    pub token_budget_chars: usize,
    pub retry: RetryConfig,
}

impl Default for AgentConfig {
    fn default() -> (res: AgentConfig)
        ensures
            res.max_iterations == 10,
            res.max_urls_fetched == 5,
            res.max_run_duration_nanos == 180_000_000_000,
            res.token_budget_chars == 128_000,
            res.retry.max_attempts == 4,
            res.retry.base_delay_ms == 1000,
            res.retry.max_delay_ms == 30_000,
    {
        AgentConfig {
            max_iterations: 10,
            max_urls_fetched: 5,
            max_run_duration_nanos: 180_000_000_000,
            token_budget_chars: 128_000,
            retry: RetryConfig::default(),
        }
    }
}

/// HTTP statuses that are worth retrying: 429 and the transient 5xx.
pub open spec fn retryable_status(status: u16) -> bool {
    status == 429 || status == 500 || status == 502 || status == 503 || status == 504
}

pub fn is_retryable_status(status: u16) -> (res: bool)
    ensures
        res == retryable_status(status),
{
    status == 429 || status == 500 || status == 502 || status == 503 || status == 504
}

// ---------------------------------------------------------------------------
// Retrying model calls
// ---------------------------------------------------------------------------

/// A failed model call whose error text names a rate limit, a transient server status, a
/// timeout or a connection problem.
pub open spec fn retryable_model_error(e: Seq<char>) -> bool {
    ||| contains(e, "429"@)
    ||| contains(e, "500"@)
    ||| contains(e, "502"@)
    ||| contains(e, "503"@)
    ||| contains(e, "504"@)
    ||| contains(e, "timed out"@)
    ||| contains(e, "connection"@)
}

pub fn is_retryable_model_error(err: &str) -> (res: bool)
    ensures
        res == retryable_model_error(err@),
{
    contains_str(err, "429") || contains_str(err, "500") || contains_str(err, "502")
        || contains_str(err, "503") || contains_str(err, "504") || contains_str(err, "timed out")
        || contains_str(err, "connection")
}

/// The error text of a model reply with a failing HTTP status: `status — body`.
pub open spec fn model_status_error(status: u16, body: Seq<char>) -> Seq<char> {
    decimal(status as nat) + " — "@ + body
}

pub fn model_status_error_text(status: u16, body: &str) -> (res: String)
    ensures
        res@ == model_status_error(status, body@),
{
    let mut s = String::new();
    push_decimal(&mut s, status as u64);
    push_str(&mut s, " — ");
    push_str(&mut s, body);
    s
}

/// Where a retry loop stands: the attempts made so far and the last retryable error.
#[derive(Debug)]
pub struct ModelRetry {
    pub attempt: u32,
    pub last_err: String,
}

/// What to do next in a retry loop.
#[derive(Debug)]
pub enum RetryStep {
    /// Make another attempt, after waiting `wait_ms` milliseconds where there is a wait.
    Attempt { wait_ms: Option<u64> },
    /// Stop, with this error text.
    GiveUp(String),
}

/// The text that ends a retry loop that used up its attempts.
pub open spec fn gave_up_text(attempt: u32, last_err: Seq<char>) -> Seq<char> {
    "gemini call failed after "@ + decimal(attempt as nat) + " attempts. Last error: "@
        + last_err
}

/// `base` doubled `doublings` times, but never above `ceiling`.
pub open spec fn capped_backoff(base: nat, ceiling: nat, doublings: nat) -> nat {
    if base * pow2(doublings) <= ceiling {
        base * pow2(doublings)
    } else {
        ceiling
    }
}

/// The wait before attempt `attempt + 1`, in milliseconds: none before the first, then
/// `base_delay_ms` doubled for each earlier retry, never above `max_delay_ms`.
pub open spec fn retry_wait(config: RetryConfig, attempt: nat) -> Option<nat> {
    if attempt == 0 {
        None
    } else {
        Some(capped_backoff(config.base_delay_ms as nat, config.max_delay_ms as nat, (attempt - 1) as nat))
    }
}

proof fn lemma_backoff_grows(base: nat, i: nat, e: nat)
    requires
        i <= e,
    ensures
        base * pow2(i) <= base * pow2(e),
{
    vstd::arithmetic::power2::lemma_pow2_adds(i, (e - i) as nat);
    vstd::arithmetic::power2::lemma_pow2_pos((e - i) as nat);
    vstd::arithmetic::power2::lemma_pow2_pos(i);
    let a = pow2(i);
    let b = pow2((e - i) as nat);
    assert(a * b >= a) by (nonlinear_arith)
        requires
            b >= 1,
            a >= 1,
    ;
    assert(base * a <= base * (a * b)) by (nonlinear_arith)
        requires
            a * b >= a,
    ;
}

/// `base` doubled `doublings` times, never above `ceiling`.
fn backoff_ms(base: u64, ceiling: u64, doublings: u32) -> (res: u64)
    ensures
        res == capped_backoff(base as nat, ceiling as nat, doublings as nat),
{
    if base == 0 {
        assert(0 * pow2(doublings as nat) == 0);
        return 0;
    }
    let mut w: u128 = base as u128;
    let mut i: u32 = 0;
    assert(pow2(0) == 1) by {
        vstd::arithmetic::power2::lemma2_to64();
    }
    while i < doublings && w < ceiling as u128
        invariant
            0 <= i <= doublings,
            base >= 1,
            w == base * pow2(i as nat),
            w <= 2 * (u64::MAX as int),
        decreases doublings - i,
    {
        proof {
            vstd::arithmetic::power2::lemma_pow2_unfold((i + 1) as nat);
            assert(base * pow2((i + 1) as nat) == 2 * (base * pow2(i as nat))) by (nonlinear_arith)
                requires
                    pow2((i + 1) as nat) == 2 * pow2(i as nat),
            ;
        }
        w = w * 2;
        i = i + 1;
    }
    proof {
        lemma_backoff_grows(base as nat, i as nat, doublings as nat);
    }
    if w >= ceiling as u128 {
        ceiling
    } else {
        w as u64
    }
}

impl ModelRetry {
    pub fn new() -> (res: ModelRetry)
        ensures
            res.attempt == 0,
            res.last_err@ == Seq::<char>::empty(),
    {
        ModelRetry { attempt: 0, last_err: String::new() }
    }

    /// Decides the next step under `config`: give up once `max_attempts` attempts were made;
    /// otherwise make one more attempt, with no wait before the first and a wait of
    /// `base_delay_ms` doubled for each earlier retry, capped at `max_delay_ms`, before the
    /// others.
    pub fn next_step(&mut self, config: &RetryConfig) -> (res: RetryStep)
        ensures
            old(self).attempt >= config.max_attempts ==> {
                &&& res matches RetryStep::GiveUp(m) && m@ == gave_up_text(
                    old(self).attempt,
                    old(self).last_err@,
                )
                &&& *final(self) == *old(self)
            },
            old(self).attempt < config.max_attempts ==> {
                &&& res matches RetryStep::Attempt { wait_ms } && match retry_wait(
                    *config,
                    old(self).attempt as nat,
                ) {
                    Some(w) => wait_ms == Some(w as u64),
                    None => wait_ms is None,
                }
                &&& final(self).attempt == old(self).attempt + 1
                &&& final(self).last_err == old(self).last_err
            },
    {
        if self.attempt >= config.max_attempts {
            let mut m = "gemini call failed after ".to_string();
            push_decimal(&mut m, self.attempt as u64);
            push_str(&mut m, " attempts. Last error: ");
            push_str(&mut m, self.last_err.as_str());
            return RetryStep::GiveUp(m);
        }
        let wait_ms = if self.attempt > 0 {
            Some(backoff_ms(config.base_delay_ms, config.max_delay_ms, self.attempt - 1))
        } else {
            None
        };
        self.attempt = self.attempt + 1;
        RetryStep::Attempt { wait_ms }
    }

    /// Takes the error of a failed attempt: a retryable one is kept as the last error and
    /// `None` comes back; any other comes back at once, to be returned as it is.
    pub fn on_error(&mut self, err: String) -> (res: Option<String>)
        ensures
            retryable_model_error(err@) ==> res is None && final(self).last_err@ == err@
                && final(self).attempt == old(self).attempt,
            !retryable_model_error(err@) ==> res == Some(err) && *final(self) == *old(self),
    {
        if is_retryable_model_error(err.as_str()) {
            self.last_err = err;
            None
        } else {
            Some(err)
        }
    }

    /// The number of retries behind a successful attempt.
    pub fn retries(&self) -> (res: u32)
        requires
            self.attempt >= 1,
        ensures
            res == self.attempt - 1,
    {
        self.attempt - 1
    }
}


// ---------------------------------------------------------------------------
// The conversation
// ---------------------------------------------------------------------------

/// A tool call that the model asked for, as its reply states it.
#[derive(Debug)]
pub struct ModelToolCall {
    pub id: Option<String>,
    pub name: Option<String>,
    /// The arguments, as the JSON text the model wrote.
    pub arguments: Option<String>,
}

/// The parts of a model reply that the agent reads.
#[derive(Debug)]
pub struct ModelReply {
    pub finish_reason: Option<String>,
    pub content: Option<String>,
    pub tool_calls: Option<Vec<ModelToolCall>>,
    /// The assistant message as JSON text, to be sent back in later requests.
    pub raw: String,
}

/// A message of the conversation that the model is sent.
#[derive(Debug)]
#[allow(inconsistent_fields)]
pub enum ChatMessage {
    User { content: String },
    Assistant { content: Option<String>, tool_calls: Option<Vec<ModelToolCall>>, raw: String },
    Tool { tool_call_id: String, content: String },
}

pub open spec fn opt_view(o: Option<String>) -> Option<Seq<char>> {
    match o {
        Some(s) => Some(s@),
        None => None,
    }
}

/// `tc` is read from the tool call `item` of a reply: its id, and the name and arguments of
/// its function, each where it is a string.
pub open spec fn tool_call_read(tc: ModelToolCall, item: Seq<char>) -> bool {
    let function = json_index(item, "function"@);
    &&& opt_view(tc.id) == json_str_field(item, "id"@)
    &&& opt_view(tc.name) == json_str_field(function, "name"@)
    &&& opt_view(tc.arguments) == json_str_field(function, "arguments"@)
}

/// The first choice of a chat completion.
pub open spec fn first_choice(response: Seq<char>) -> Seq<char> {
    json_first(json_index(response, "choices"@))
}

/// The assistant message of a chat completion.
pub open spec fn reply_message(response: Seq<char>) -> Seq<char> {
    json_index(first_choice(response), "message"@)
}

fn read_tool_call(item: &str) -> (res: ModelToolCall)
    ensures
        tool_call_read(res, item@),
{
    let function = json_index_of(item, "function");
    ModelToolCall {
        id: json_str_field_of(item, "id"),
        name: json_str_field_of(function.as_str(), "name"),
        arguments: json_str_field_of(function.as_str(), "arguments"),
    }
}

/// Reads a chat completion (JSON text): from its first choice, the finish reason, and from
/// that choice's message, the text content and the tool calls where they form an array; the
/// message itself is kept as compact text.
pub fn read_model_reply(response: &str) -> (res: ModelReply)
    ensures
        opt_view(res.finish_reason) == json_str_field(first_choice(response@), "finish_reason"@),
        opt_view(res.content) == json_str_field(reply_message(response@), "content"@),
        res.raw@ == reply_message(response@),
        match json_elements_spec(json_index(reply_message(response@), "tool_calls"@)) {
            Some(items) => res.tool_calls matches Some(calls) && calls@.len() == items.len()
                && forall|i: int| 0 <= i < items.len() ==> tool_call_read(#[trigger] calls@[i], items[i]),
            None => res.tool_calls is None,
        },
{
    let choices = json_index_of(response, "choices");
    let choice = json_first_of(choices.as_str());
    let message = json_index_of(choice.as_str(), "message");
    let calls_text = json_index_of(message.as_str(), "tool_calls");
    let tool_calls = match json_elements(calls_text.as_str()) {
        Some(items) => {
            let mut calls: Vec<ModelToolCall> = Vec::new();
            let mut i: usize = 0;
            while i < items.len()
                invariant
                    0 <= i <= items@.len(),
                    calls@.len() == i,
                    forall|k: int| 0 <= k < i ==> tool_call_read(#[trigger] calls@[k], items@[k]@),
                decreases items@.len() - i,
            {
                calls.push(read_tool_call(items[i].as_str()));
                i = i + 1;
            }
            proof {
                assert forall|k: int| 0 <= k < items@.len() implies tool_call_read(
                    #[trigger] calls@[k],
                    items.deep_view()[k],
                ) by {
                    assert(items.deep_view()[k] == items@[k]@);
                }
            }
            Some(calls)
        },
        None => None,
    };
    ModelReply {
        finish_reason: json_str_field_of(choice.as_str(), "finish_reason"),
        content: json_str_field_of(message.as_str(), "content"),
        tool_calls,
        raw: message,
    }
}

/// The model that answers the run's requests.
pub const MODEL_NAME: &'static str = "gemini-2.5-flash";

/// A message as the chat API takes it. An assistant message is sent back as the model wrote
/// it, or as `null` where its text is not JSON.
pub open spec fn message_json(m: ChatMessage) -> Seq<char> {
    match m {
        ChatMessage::User { content } => json_object(
            seq![("role"@, json_quote_spec("user"@)), ("content"@, json_quote_spec(content@))],
        ),
        ChatMessage::Assistant { raw, .. } => if json_valid_spec(raw@) {
            raw@
        } else {
            "null"@
        },
        ChatMessage::Tool { tool_call_id, content } => json_object(
            seq![
                ("role"@, json_quote_spec("tool"@)),
                ("tool_call_id"@, json_quote_spec(tool_call_id@)),
                ("content"@, json_quote_spec(content@)),
            ],
        ),
    }
}

/// The system message that opens every request.
pub open spec fn system_message() -> Seq<char> {
    json_object(seq![("role"@, json_quote_spec("system"@)), ("content"@, json_quote_spec(SYSTEM_PROMPT@))])
}

/// The body of a chat completion request: the model, a temperature of 0.1, automatic tool
/// choice, the tool schemas, and the conversation behind the system message.
pub open spec fn request_body(messages: Seq<ChatMessage>, tools: Seq<Seq<char>>) -> Seq<char> {
    json_object(
        seq![
            ("model"@, json_quote_spec(MODEL_NAME@)),
            ("temperature"@, "0.1"@),
            ("tool_choice"@, json_quote_spec("auto"@)),
            ("tools"@, json_array(tools)),
            ("messages"@, json_array(seq![system_message()] + messages.map_values(|m: ChatMessage| message_json(m)))),
        ],
    )
}

fn write_message_json(m: &ChatMessage) -> (res: String)
    ensures
        res@ == message_json(*m),
{
    match m {
        ChatMessage::User { content } => {
            let mut fields: Vec<(String, String)> = Vec::new();
            fields.push(("role".to_string(), json_quote("user")));
            fields.push(("content".to_string(), json_quote(content.as_str())));
            assert(field_views(fields@) =~= seq![
                ("role"@, json_quote_spec("user"@)),
                ("content"@, json_quote_spec(content@)),
            ]);
            write_json_object(&fields)
        },
        ChatMessage::Assistant { raw, .. } => {
            if json_valid(raw.as_str()) {
                copy_str(raw.as_str())
            } else {
                "null".to_string()
            }
        },
        ChatMessage::Tool { tool_call_id, content } => {
            let mut fields: Vec<(String, String)> = Vec::new();
            fields.push(("role".to_string(), json_quote("tool")));
            fields.push(("tool_call_id".to_string(), json_quote(tool_call_id.as_str())));
            fields.push(("content".to_string(), json_quote(content.as_str())));
            assert(field_views(fields@) =~= seq![
                ("role"@, json_quote_spec("tool"@)),
                ("tool_call_id"@, json_quote_spec(tool_call_id@)),
                ("content"@, json_quote_spec(content@)),
            ]);
            write_json_object(&fields)
        },
    }
}

/// Writes the body of a chat completion request for the conversation `messages` and the tool
/// schemas `tools`.
pub fn write_request_body(messages: &Vec<ChatMessage>, tools: &Vec<String>) -> (res: String)
    ensures
        res@ == request_body(messages@, tools.deep_view()),
{
    let ghost all = seq![system_message()] + messages@.map_values(|m: ChatMessage| message_json(m));
    let mut items: Vec<String> = Vec::new();
    let mut sys: Vec<(String, String)> = Vec::new();
    sys.push(("role".to_string(), json_quote("system")));
    sys.push(("content".to_string(), json_quote(SYSTEM_PROMPT)));
    assert(field_views(sys@) =~= seq![
        ("role"@, json_quote_spec("system"@)),
        ("content"@, json_quote_spec(SYSTEM_PROMPT@)),
    ]);
    items.push(write_json_object(&sys));
    let mut i: usize = 0;
    while i < messages.len()
        invariant
            0 <= i <= messages@.len(),
            all == seq![system_message()] + messages@.map_values(|m: ChatMessage| message_json(m)),
            items.deep_view() == all.subrange(0, i + 1),
        decreases messages@.len() - i,
    {
        let ghost before = items.deep_view();
        let t = write_message_json(&messages[i]);
        let ghost tv = t@;
        items.push(t);
        assert(items.deep_view() =~= before.push(tv));
        assert(all[i + 1] == message_json(messages@[i as int]));
        assert(all.subrange(0, i + 2) =~= all.subrange(0, i + 1).push(all[i + 1]));
        i = i + 1;
    }
    assert(all.subrange(0, messages@.len() + 1 as int) =~= all);
    let mut fields: Vec<(String, String)> = Vec::new();
    fields.push(("model".to_string(), json_quote(MODEL_NAME)));
    fields.push(("temperature".to_string(), "0.1".to_string()));
    fields.push(("tool_choice".to_string(), json_quote("auto")));
    fields.push(("tools".to_string(), write_json_array(tools)));
    fields.push(("messages".to_string(), write_json_array(&items)));
    assert(field_views(fields@) =~= seq![
        ("model"@, json_quote_spec(MODEL_NAME@)),
        ("temperature"@, "0.1"@),
        ("tool_choice"@, json_quote_spec("auto"@)),
        ("tools"@, json_array(tools.deep_view())),
        ("messages"@, json_array(all)),
    ]);
    write_json_object(&fields)
}

pub open spec fn view_or(o: Option<String>, d: Seq<char>) -> Seq<char> {
    match o {
        Some(s) => s@,
        None => d,
    }
}

/// The UTF-8 length of an optional text, 0 where there is none.
pub open spec fn opt_bytes(o: Option<String>) -> nat {
    match o {
        Some(s) => encode_utf8(s@).len(),
        None => 0,
    }
}

/// The UTF-8 length of the arguments of `calls`.
pub open spec fn arguments_bytes(calls: Seq<ModelToolCall>) -> nat
    decreases calls.len(),
{
    if calls.len() == 0 {
        0
    } else {
        arguments_bytes(calls.drop_last()) + opt_bytes(calls.last().arguments)
    }
}

/// The size that a message adds to the context: its text content and the arguments of its
/// tool calls, in UTF-8 bytes.
pub open spec fn message_size(m: ChatMessage) -> nat {
    match m {
        ChatMessage::User { content } => encode_utf8(content@).len(),
        ChatMessage::Assistant { content, tool_calls, .. } => opt_bytes(content) + match tool_calls {
            Some(calls) => arguments_bytes(calls@),
            None => 0,
        },
        ChatMessage::Tool { content, .. } => encode_utf8(content@).len(),
    }
}

/// The estimated size of a conversation.
pub open spec fn context_size(ms: Seq<ChatMessage>) -> nat
    decreases ms.len(),
{
    if ms.len() == 0 {
        0
    } else {
        context_size(ms.drop_last()) + message_size(ms.last())
    }
}

pub proof fn lemma_context_size_prefix(ms: Seq<ChatMessage>, i: int)
    requires
        0 <= i <= ms.len(),
    ensures
        context_size(ms.subrange(0, i)) <= context_size(ms),
    decreases ms.len() - i,
{
    if i < ms.len() {
        lemma_context_size_prefix(ms, i + 1);
        assert(ms.subrange(0, i + 1).drop_last() =~= ms.subrange(0, i));
    } else {
        assert(ms.subrange(0, i) =~= ms);
    }
}

pub proof fn lemma_arguments_bytes_prefix(calls: Seq<ModelToolCall>, i: int)
    requires
        0 <= i <= calls.len(),
    ensures
        arguments_bytes(calls.subrange(0, i)) <= arguments_bytes(calls),
    decreases calls.len() - i,
{
    if i < calls.len() {
        lemma_arguments_bytes_prefix(calls, i + 1);
        assert(calls.subrange(0, i + 1).drop_last() =~= calls.subrange(0, i));
    } else {
        assert(calls.subrange(0, i) =~= calls);
    }
}

fn opt_len(o: &Option<String>) -> (res: usize)
    requires
        opt_bytes(*o) <= usize::MAX,
    ensures
        res == opt_bytes(*o),
{
    match o {
        Some(s) => utf8_len(s.as_str()),
        None => 0,
    }
}

fn message_len(m: &ChatMessage) -> (res: usize)
    requires
        message_size(*m) <= usize::MAX,
    ensures
        res == message_size(*m),
{
    match m {
        ChatMessage::User { content } => utf8_len(content.as_str()),
        ChatMessage::Tool { content, .. } => utf8_len(content.as_str()),
        ChatMessage::Assistant { content, tool_calls, .. } => {
            let mut n = opt_len(content);
            match tool_calls {
                Some(calls) => {
                    let mut i: usize = 0;
                    while i < calls.len()
                        invariant
                            0 <= i <= calls@.len(),
                            opt_bytes(*content) + arguments_bytes(calls@) <= usize::MAX,
                            n == opt_bytes(*content) + arguments_bytes(calls@.subrange(0, i as int)),
                        decreases calls@.len() - i,
                    {
                        proof {
                            assert(calls@.subrange(0, i + 1).drop_last() =~= calls@.subrange(0, i as int));
                            lemma_arguments_bytes_prefix(calls@, i + 1);
                        }
                        n = n + opt_len(&calls[i].arguments);
                        i = i + 1;
                    }
                    assert(calls@.subrange(0, calls@.len() as int) =~= calls@);
                    n
                },
                None => n,
            }
        },
    }
}

/// Estimates the size of the conversation: the text content of every message and the
/// arguments of every tool call, in UTF-8 bytes.
pub fn estimate_context_size(messages: &Vec<ChatMessage>) -> (res: usize)
    requires
        context_size(messages@) <= usize::MAX,
    ensures
        res == context_size(messages@),
{
    let mut n: usize = 0;
    let mut i: usize = 0;
    while i < messages.len()
        invariant
            0 <= i <= messages@.len(),
            context_size(messages@) <= usize::MAX,
            n == context_size(messages@.subrange(0, i as int)),
        decreases messages@.len() - i,
    {
        proof {
            assert(messages@.subrange(0, i + 1).drop_last() =~= messages@.subrange(0, i as int));
            lemma_context_size_prefix(messages@, i + 1);
        }
        n = n + message_len(&messages[i]);
        i = i + 1;
    }
    assert(messages@.subrange(0, messages@.len() as int) =~= messages@);
    n
}

/// Whether the size of the conversation can be counted in `usize`.
pub fn context_size_fits(messages: &Vec<ChatMessage>) -> (res: bool)
    ensures
        res == (context_size(messages@) <= usize::MAX),
{
    let mut n: u128 = 0;
    let mut i: usize = 0;
    while i < messages.len()
        invariant
            0 <= i <= messages@.len(),
            n == context_size(messages@.subrange(0, i as int)),
            n <= usize::MAX,
        decreases messages@.len() - i,
    {
        proof {
            assert(messages@.subrange(0, i + 1).drop_last() =~= messages@.subrange(0, i as int));
            lemma_context_size_prefix(messages@, i + 1);
        }
        if !message_fits(&messages[i], (usize::MAX as u128 - n) as usize) {
            proof {
                lemma_context_size_prefix(messages@, i + 1);
            }
            return false;
        }
        n = n + message_len(&messages[i]) as u128;
        i = i + 1;
    }
    assert(messages@.subrange(0, messages@.len() as int) =~= messages@);
    true
}

/// Whether `m` adds at most `room` to the context.
fn message_fits(m: &ChatMessage, room: usize) -> (res: bool)
    ensures
        res == (message_size(*m) <= room),
{
    match m {
        ChatMessage::User { content } => utf8_len_at_most(content.as_str(), room),
        ChatMessage::Tool { content, .. } => utf8_len_at_most(content.as_str(), room),
        ChatMessage::Assistant { content, tool_calls, .. } => {
            let mut left = room;
            match content {
                Some(c) => {
                    if !utf8_len_at_most(c.as_str(), left) {
                        return false;
                    }
                    left = left - utf8_len(c.as_str());
                },
                None => {},
            }
            match tool_calls {
                Some(calls) => {
                    let mut i: usize = 0;
                    while i < calls.len()
                        invariant
                            0 <= i <= calls@.len(),
                            opt_bytes(*content) + arguments_bytes(calls@.subrange(0, i as int))
                                + left == room,
                            message_size(*m) == opt_bytes(*content) + arguments_bytes(calls@),
                        decreases calls@.len() - i,
                    {
                        proof {
                            assert(calls@.subrange(0, i + 1).drop_last() =~= calls@.subrange(0, i as int));
                            assert(calls@.subrange(0, i + 1).last() == calls@[i as int]);
                            assert(arguments_bytes(calls@.subrange(0, i + 1)) == arguments_bytes(
                                calls@.subrange(0, i as int),
                            ) + opt_bytes(calls@[i as int].arguments));
                        }
                        match &calls[i].arguments {
                            Some(a) => {
                                if !utf8_len_at_most(a.as_str(), left) {
                                    proof {
                                        lemma_arguments_bytes_prefix(calls@, i + 1);
                                        assert(opt_bytes(calls@[i as int].arguments) == encode_utf8(
                                            a@,
                                        ).len());
                                        assert(message_size(*m) == opt_bytes(*content)
                                            + arguments_bytes(calls@));
                                    }
                                    return false;
                                }
                                left = left - utf8_len(a.as_str());
                            },
                            None => {},
                        }
                        i = i + 1;
                    }
                    assert(calls@.subrange(0, calls@.len() as int) =~= calls@);
                    true
                },
                None => true,
            }
        },
    }
}

/// Whether `s` takes at most `limit` bytes in UTF-8.
fn utf8_len_at_most(s: &str, limit: usize) -> (res: bool)
    ensures
        res == (encode_utf8(s@).len() <= limit),
{
    let v = crate::text::chars_of(s);
    let mut n: usize = 0;
    let mut i: usize = 0;
    while i < v.len()
        invariant
            0 <= i <= v@.len(),
            v@ == s@,
            n == encode_utf8(v@.subrange(0, i as int)).len(),
            n <= limit,
        decreases v@.len() - i,
    {
        proof {
            crate::text::lemma_encode_utf8_push(v@.subrange(0, i as int), v@[i as int]);
            assert(v@.subrange(0, i as int).push(v@[i as int]) =~= v@.subrange(0, i + 1));
        }
        let w = crate::text::utf8_width_of(v[i]);
        if w > limit - n {
            proof {
                crate::text::lemma_encode_utf8_len_monotone(v@, i + 1, v@.len() as int);
                assert(v@.subrange(0, v@.len() as int) =~= v@);
            }
            return false;
        }
        n = n + w;
        i = i + 1;
    }
    assert(v@.subrange(0, v@.len() as int) =~= v@);
    true
}

/// The conversation once pruned: with more than ten messages, the two oldest after the
/// question are dropped; otherwise it is kept whole.
pub open spec fn pruned<T>(ms: Seq<T>) -> Seq<T> {
    if ms.len() <= 10 {
        ms
    } else {
        seq![ms[0]] + ms.subrange(3, ms.len() as int)
    }
}

/// Drops the oldest exchange after the question once the history holds more than ten
/// messages.
pub fn prune_message_history<T>(messages: &mut Vec<T>)
    ensures
        final(messages)@ == pruned(old(messages)@),
{
    if messages.len() <= 10 {
        return;
    }
    if messages.len() > 2 {
        messages.remove(1);
        if messages.len() > 2 {
            messages.remove(1);
        }
    }
    assert(messages@ =~= pruned(old(messages)@));
}


// ---------------------------------------------------------------------------
// The run
// ---------------------------------------------------------------------------

/// A tool call the agent has decided on: what it will record, and, where the call is refused,
/// the result it gets without running.
#[derive(Debug)]
pub struct PlannedCall {
    pub tool_id: String,
    pub tool_name: String,
    /// The arguments as JSON text: the model's text where it is valid JSON, `{}` otherwise.
    pub args: String,
    pub refusal: Option<ToolResult>,
}

pub struct PlannedCallView {
    pub tool_id: Seq<char>,
    pub tool_name: Seq<char>,
    pub args: Seq<char>,
    pub refusal: Option<ToolResultView>,
}

impl View for PlannedCall {
    type V = PlannedCallView;

    open spec fn view(&self) -> PlannedCallView {
        PlannedCallView {
            tool_id: self.tool_id@,
            tool_name: self.tool_name@,
            args: self.args@,
            refusal: match self.refusal {
                Some(r) => Some(r@),
                None => None,
            },
        }
    }
}

/// What running a tool gave: its result and how long it took.
#[derive(Debug)]
pub struct ToolOutcome {
    pub result: ToolResult,
    pub duration_ms: u64,
}

/// How a model call ended: a reply, or an error once retries were spent.
#[derive(Debug)]
pub enum ModelOutcome {
    Reply { reply: ModelReply, retries: u32, duration_ms: u64 },
    Failed(String),
}

/// The state of one run of the agent.
#[derive(Debug)]
pub struct AgentRun {
    pub question: String,
    pub config: AgentConfig,
    pub iterations: u32,
    pub tool_calls_log: Vec<ToolCall>,
    pub recent_fingerprints: Vec<String>,
    pub metrics: RunMetrics,
    pub messages: Vec<ChatMessage>,
    pub pending: Vec<PlannedCall>,
}

/// The run has gone on longer than `max_secs` seconds.
pub open spec fn out_of_time(elapsed_nanos: u128, max_nanos: u128) -> bool {
    elapsed_nanos > max_nanos
}

/// The error that ends a run that went on too long.
pub open spec fn out_of_time_message() -> Seq<char> {
    "run exceeded max_run_duration"@
}

/// The outcome of starting an iteration.
#[derive(Debug)]
pub enum IterationStart {
    Continue(AgentRun),
    Finished(AgentRunResult),
}

/// The outcome of a model call.
#[derive(Debug)]
pub enum ModelStep {
    /// The run is over.
    Finished(AgentRunResult),
    /// The calls in `pending` are to be run.
    RunTools(AgentRun),
}

/// The number of successful calls in `log`.
pub open spec fn successes(log: Seq<ToolCallView>) -> nat
    decreases log.len(),
{
    if log.len() == 0 {
        0
    } else {
        successes(log.drop_last()) + if log.last().output is Success {
            1nat
        } else {
            0nat
        }
    }
}

/// The number of failed calls in `log`.
pub open spec fn failures(log: Seq<ToolCallView>) -> nat
    decreases log.len(),
{
    if log.len() == 0 {
        0
    } else {
        failures(log.drop_last()) + if log.last().output is Error {
            1nat
        } else {
            0nat
        }
    }
}

/// The time that the calls in `log` took, in milliseconds.
pub open spec fn total_duration(log: Seq<ToolCallView>) -> nat
    decreases log.len(),
{
    if log.len() == 0 {
        0
    } else {
        total_duration(log.drop_last()) + log.last().duration_ms as nat
    }
}

/// `name:arguments`, the mark by which repeated tool calls are recognised.
pub open spec fn fingerprint(tc: ModelToolCall) -> Seq<char> {
    view_or(tc.name, ""@) + ":"@ + view_or(tc.arguments, "{}"@)
}

pub open spec fn fingerprints(calls: Seq<ModelToolCall>) -> Seq<Seq<char>> {
    calls.map_values(|tc: ModelToolCall| fingerprint(tc))
}

/// `fp` is among the last three fingerprints of `recent`.
pub open spec fn seen_recently(recent: Seq<Seq<char>>, fp: Seq<char>) -> bool {
    exists|j: int| 0 <= j && recent.len() - 3 <= j < recent.len() && recent[j] == fp
}

/// None of the first `n` calls repeats one of the three fingerprints before it.
pub open spec fn no_repeat_upto(recent: Seq<Seq<char>>, fps: Seq<Seq<char>>, n: int) -> bool {
    forall|k: int|
        0 <= k < n ==> !seen_recently(recent + fps.subrange(0, k), #[trigger] fps[k])
}

/// The message that a refused `fetch_url` call gets.
pub open spec fn url_limit_message(max_urls: nat) -> Seq<char> {
    "URL fetch limit reached ("@ + decimal(max_urls) + " max). Synthesize from information gathered so far."@
}

/// The plan for a requested call: its id, its name and its arguments (`{}` where they are not
/// valid JSON); a `fetch_url` call is refused once `urls_fetched` reached `max_urls`.
pub open spec fn plan_call(tc: ModelToolCall, urls_fetched: nat, max_urls: nat) -> PlannedCallView {
    let name = view_or(tc.name, ""@);
    let raw_args = view_or(tc.arguments, "{}"@);
    PlannedCallView {
        tool_id: view_or(tc.id, ""@),
        tool_name: name,
        args: if json_valid_spec(raw_args) {
            raw_args
        } else {
            "{}"@
        },
        refusal: if name == "fetch_url"@ && urls_fetched >= max_urls {
            Some(ToolResultView::Error { category: "non_retryable"@, message: url_limit_message(max_urls) })
        } else {
            None
        },
    }
}

/// The audit entry of a planned call: the refusal where it was refused, what it gave otherwise.
pub open spec fn executed(p: PlannedCallView, o: Option<ToolOutcome>) -> ToolCallView {
    match p.refusal {
        Some(r) => ToolCallView { tool_name: p.tool_name, input: p.args, output: r, duration_ms: 0 },
        None => ToolCallView {
            tool_name: p.tool_name,
            input: p.args,
            output: o->0.result@,
            duration_ms: o->0.duration_ms,
        },
    }
}

pub open spec fn executed_calls(ps: Seq<PlannedCallView>, os: Seq<Option<ToolOutcome>>) -> Seq<ToolCallView> {
    Seq::new(ps.len(), |i: int| executed(ps[i], os[i]))
}

/// The result of a run that ends in the given state.
pub open spec fn finished_view(
    run: AgentRun,
    report: Option<SearchReportView>,
    reason: TerminationReasonView,
) -> AgentRunResultView {
    AgentRunResultView {
        iterations: run.iterations,
        tool_calls: log_view(run.tool_calls_log@),
        report,
        termination_reason: reason,
    }
}

/// The message holding a tool result for the model.
pub open spec fn is_tool_message(m: ChatMessage, id: Seq<char>, content: Seq<char>) -> bool {
    m matches ChatMessage::Tool { tool_call_id, content: c } && tool_call_id@ == id && c@ == content
}

pub proof fn lemma_counts_split(log: Seq<ToolCallView>)
    ensures
        successes(log) + failures(log) == log.len(),
    decreases log.len(),
{
    if log.len() > 0 {
        lemma_counts_split(log.drop_last());
    }
}

impl AgentRun {
    /// The invariant of a run: iterations within the limit, the question first in the
    /// conversation, and counters that agree with the audit trail.
    pub open spec fn wf(&self) -> bool {
        &&& self.iterations <= self.config.max_iterations
        &&& self.messages@.len() >= 1
        &&& self.messages@[0] matches ChatMessage::User { content } && content@ == self.question@
        &&& self.metrics.total_tool_calls == self.tool_calls_log@.len()
        &&& self.metrics.successful_tool_calls == successes(log_view(self.tool_calls_log@))
        &&& self.metrics.failed_tool_calls == failures(log_view(self.tool_calls_log@))
        &&& self.metrics.total_tool_latency_ms == total_duration(log_view(self.tool_calls_log@))
        &&& self.metrics.urls_fetched == successful_fetches(log_view(self.tool_calls_log@))
        &&& self.metrics.urls_fetched + runnable_fetches(plan_views(self.pending@))
            <= self.config.max_urls_fetched
    }

    /// A new run of `question` under `config`: the question is the conversation.
    pub fn new(question: &str, config: AgentConfig) -> (res: AgentRun)
        ensures
            res.wf(),
            res.question@ == question@,
            res.config == config,
            res.iterations == 0,
            res.tool_calls_log@.len() == 0,
            res.recent_fingerprints@.len() == 0,
            res.metrics.is_zero(),
            res.messages@.len() == 1,
            res.pending@.len() == 0,
    {
        let mut messages: Vec<ChatMessage> = Vec::new();
        messages.push(ChatMessage::User { content: copy_str(question) });
        let res = AgentRun {
            question: copy_str(question),
            config,
            iterations: 0,
            tool_calls_log: Vec::new(),
            recent_fingerprints: Vec::new(),
            metrics: RunMetrics::default(),
            messages,
            pending: Vec::new(),
        };
        assert(log_view(res.tool_calls_log@) =~= Seq::<ToolCallView>::empty());
        res
    }

    fn finish(self, report: Option<crate::types::SearchReport>, reason: TerminationReason) -> (res:
        AgentRunResult)
        ensures
            res@ == finished_view(
                self,
                match report {
                    Some(r) => Some(r@),
                    None => None,
                },
                reason@,
            ),
    {
        AgentRunResult {
            iterations: self.iterations,
            tool_calls: self.tool_calls_log,
            report,
            termination_reason: reason,
        }
    }

    /// Whether the conversation's size can be counted, which `start_iteration` needs.
    pub fn context_fits(&self) -> (res: bool)
        ensures
            res == (context_size(self.messages@) <= usize::MAX),
    {
        context_size_fits(&self.messages)
    }

    /// Starts an iteration, `elapsed_nanos` nanoseconds into the run: ends the run once it has run longer
    /// than its wall-clock ceiling, or once `max_iterations` iterations were made; otherwise
    /// counts the iteration, estimates the context (a token is four bytes) and prunes the
    /// history when the estimate reaches the budget.
    pub fn start_iteration(self, elapsed_nanos: u128) -> (res: IterationStart)
        requires
            self.wf(),
            context_size(self.messages@) <= usize::MAX,
        ensures
            out_of_time(elapsed_nanos, self.config.max_run_duration_nanos) ==> (res matches IterationStart::Finished(
                r,
            ) && r@ == finished_view(
                self,
                None,
                TerminationReasonView::FatalError(
                    out_of_time_message(),
                ),
            )),
            !out_of_time(elapsed_nanos, self.config.max_run_duration_nanos) && self.iterations
                >= self.config.max_iterations ==> (res matches IterationStart::Finished(
                r,
            ) && r@ == finished_view(self, None, TerminationReasonView::MaxIterationsReached)),
            !out_of_time(elapsed_nanos, self.config.max_run_duration_nanos) && self.iterations
                < self.config.max_iterations ==> (res matches IterationStart::Continue(
                next,
            ) && {
                &&& next.wf()
                &&& next.iterations == self.iterations + 1
                &&& next.metrics == (RunMetrics {
                    estimated_tokens_used: (context_size(self.messages@) / 4) as usize,
                    ..self.metrics
                })
                &&& next.messages@ == if context_size(self.messages@)
                    >= self.config.token_budget_chars {
                    pruned(self.messages@)
                } else {
                    self.messages@
                }
                &&& next.question == self.question
                &&& next.config == self.config
                &&& next.tool_calls_log == self.tool_calls_log
                &&& next.recent_fingerprints == self.recent_fingerprints
                &&& next.pending == self.pending
            }),
            res matches IterationStart::Finished(r) ==> r.iterations <= self.config.max_iterations,
    {
        if elapsed_nanos > self.config.max_run_duration_nanos {
            let m = "run exceeded max_run_duration".to_string();
            return IterationStart::Finished(self.finish(None, TerminationReason::FatalError(m)));
        }
        if self.iterations >= self.config.max_iterations {
            return IterationStart::Finished(self.finish(None, TerminationReason::MaxIterationsReached));
        }
        let mut run = self;
        run.iterations = run.iterations + 1;
        let estimated_chars = estimate_context_size(&run.messages);
        run.metrics.estimated_tokens_used = estimated_chars / 4;
        if estimated_chars >= run.config.token_budget_chars {
            prune_message_history(&mut run.messages);
        }
        IterationStart::Continue(run)
    }

    /// Whether the counters can take a model call, which `on_model_outcome` needs.
    pub fn can_record_model_call(&self, duration_ms: u64, retries: u32) -> (res: bool)
        ensures
            res == self.metrics.can_record_model_call(duration_ms, retries),
    {
        self.metrics.model_calls < u32::MAX && retries <= u32::MAX - self.metrics.model_retries
            && duration_ms <= u64::MAX - self.metrics.total_model_latency_ms
    }
}

/// Whether `fp` is among the last three of `recent`.
fn seen_in_last_three(recent: &Vec<String>, fp: &str) -> (res: bool)
    ensures
        res == seen_recently(recent.deep_view(), fp@),
{
    let n = recent.len();
    let lo = if n >= 3 {
        n - 3
    } else {
        0
    };
    let mut j = lo;
    while j < n
        invariant
            lo <= j <= n,
            n == recent@.len(),
            lo == (if n >= 3 { n - 3 } else { 0 }),
            forall|k: int| lo <= k < j ==> recent.deep_view()[k] != fp@,
        decreases n - j,
    {
        if str_eq(recent[j].as_str(), fp) {
            assert(recent.deep_view()[j as int] == fp@);
            return true;
        }
        j = j + 1;
    }
    false
}

fn fingerprint_of(tc: &ModelToolCall) -> (res: String)
    ensures
        res@ == fingerprint(*tc),
{
    let mut s = match &tc.name {
        Some(n) => copy_str(n.as_str()),
        None => String::new(),
    };
    s.push(':');
    match &tc.arguments {
        Some(a) => push_str(&mut s, a.as_str()),
        None => push_str(&mut s, "{}"),
    }
    proof {
        reveal_strlit(":");
        reveal_strlit("");
        assert(":"@ =~= seq![':']);
        assert(""@ =~= Seq::<char>::empty());
    }
    assert(s@ =~= fingerprint(*tc));
    s
}

fn plan_of(tc: &ModelToolCall, urls_fetched: usize, max_urls: usize) -> (res: PlannedCall)
    ensures
        res@ == plan_call(*tc, urls_fetched as nat, max_urls as nat),
{
    let tool_id = match &tc.id {
        Some(i) => copy_str(i.as_str()),
        None => String::new(),
    };
    let tool_name = match &tc.name {
        Some(n) => copy_str(n.as_str()),
        None => String::new(),
    };
    let raw_args = match &tc.arguments {
        Some(a) => copy_str(a.as_str()),
        None => "{}".to_string(),
    };
    let args = if json_valid(raw_args.as_str()) {
        raw_args
    } else {
        "{}".to_string()
    };
    let refusal = if str_eq(tool_name.as_str(), "fetch_url") && urls_fetched >= max_urls {
        let mut message = "URL fetch limit reached (".to_string();
        push_decimal(&mut message, max_urls as u64);
        push_str(&mut message, " max). Synthesize from information gathered so far.");
        Some(ToolResult::Error { category: "non_retryable".to_string(), message })
    } else {
        None
    };
    let res = PlannedCall { tool_id, tool_name, args, refusal };
    proof {
        reveal_strlit("");
        assert(""@ =~= Seq::<char>::empty());
    }
    assert(res@.tool_id == plan_call(*tc, urls_fetched as nat, max_urls as nat).tool_id);
    assert(res@.tool_name == plan_call(*tc, urls_fetched as nat, max_urls as nat).tool_name);
    assert(res@.args == plan_call(*tc, urls_fetched as nat, max_urls as nat).args);
    assert(res@.refusal == plan_call(*tc, urls_fetched as nat, max_urls as nat).refusal);
    res
}


/// The assistant message that a reply adds to the conversation.
pub open spec fn assistant_message(reply: ModelReply) -> ChatMessage {
    ChatMessage::Assistant { content: reply.content, tool_calls: reply.tool_calls, raw: reply.raw }
}

/// A planned `fetch_url` call that is to run: not refused with an error.
pub open spec fn runnable_fetch(p: PlannedCallView) -> bool {
    p.tool_name == "fetch_url"@ && !(p.refusal matches Some(r) && r is Error)
}

/// The number of planned `fetch_url` calls that are to run.
pub open spec fn runnable_fetches(ps: Seq<PlannedCallView>) -> nat
    decreases ps.len(),
{
    if ps.len() == 0 {
        0
    } else {
        runnable_fetches(ps.drop_last()) + if runnable_fetch(ps.last()) {
            1nat
        } else {
            0nat
        }
    }
}

/// The plans of a batch of calls: each `fetch_url` call counts the fetches made so far and
/// the ones of this batch planned before it against the limit.
pub open spec fn plans(calls: Seq<ModelToolCall>, urls_fetched: nat, max_urls: nat) -> Seq<PlannedCallView>
    decreases calls.len(),
{
    if calls.len() == 0 {
        Seq::empty()
    } else {
        let prev = plans(calls.drop_last(), urls_fetched, max_urls);
        prev.push(plan_call(calls.last(), urls_fetched + runnable_fetches(prev), max_urls))
    }
}

/// A call whose fingerprint equals one of the three fingerprints recorded just before it (the
/// calls of earlier replies, then those before it in the same reply) is a loop: a reply with
/// such a call ends the run.
pub proof fn law_repeat_within_three_is_a_loop(recent: Seq<Seq<char>>, fps: Seq<Seq<char>>, k: int, j: int)
    requires
        0 <= k < fps.len(),
        0 <= j < recent.len() + k,
        recent.len() + k <= j + 3,
        (recent + fps.subrange(0, k))[j] == fps[k],
    ensures
        !no_repeat_upto(recent, fps, fps.len() as int),
{
    let before = recent + fps.subrange(0, k);
    assert(before.len() == recent.len() + k);
    assert(seen_recently(before, fps[k]));
}

/// A reply none of whose calls repeats one of the three fingerprints just before it is no loop.
pub proof fn law_no_repeat_is_no_loop(recent: Seq<Seq<char>>, fps: Seq<Seq<char>>)
    requires
        forall|k: int, j: int|
            0 <= k < fps.len() && 0 <= j < recent.len() + k && recent.len() + k <= j + 3
                ==> #[trigger] (recent + fps.subrange(0, k))[j] != #[trigger] fps[k],
    ensures
        no_repeat_upto(recent, fps, fps.len() as int),
{
    assert forall|k: int| 0 <= k < fps.len() implies !seen_recently(
        recent + fps.subrange(0, k),
        #[trigger] fps[k],
    ) by {
        let before = recent + fps.subrange(0, k);
        assert(before.len() == recent.len() + k);
        if seen_recently(before, fps[k]) {
            let j = choose|j: int| 0 <= j && before.len() - 3 <= j < before.len() && before[j] == fps[k];
            assert(before[j] != fps[k]);
        }
    }
}

/// Two calls of one tool with different arguments have different fingerprints, so they are
/// never taken for a repeat of each other.
pub proof fn law_fingerprints_tell_arguments_apart(tc1: ModelToolCall, tc2: ModelToolCall)
    requires
        view_or(tc1.name, ""@) == view_or(tc2.name, ""@),
        view_or(tc1.arguments, "{}"@) != view_or(tc2.arguments, "{}"@),
    ensures
        fingerprint(tc1) != fingerprint(tc2),
{
    let p = view_or(tc1.name, ""@) + ":"@;
    let a1 = view_or(tc1.arguments, "{}"@);
    let a2 = view_or(tc2.arguments, "{}"@);
    if fingerprint(tc1) == fingerprint(tc2) {
        assert(fingerprint(tc1) == p + a1);
        assert(fingerprint(tc2) == p + a2);
        assert((p + a1).subrange(p.len() as int, (p + a1).len() as int) =~= a1);
        assert((p + a2).subrange(p.len() as int, (p + a2).len() as int) =~= a2);
    }
}

/// A batch never plans more fetches than the limit leaves.
pub proof fn law_batch_fetches_within_limit(calls: Seq<ModelToolCall>, urls_fetched: nat, max_urls: nat)
    requires
        urls_fetched <= max_urls,
    ensures
        urls_fetched + runnable_fetches(plans(calls, urls_fetched, max_urls)) <= max_urls,
        plans(calls, urls_fetched, max_urls).len() == calls.len(),
    decreases calls.len(),
{
    if calls.len() > 0 {
        law_batch_fetches_within_limit(calls.drop_last(), urls_fetched, max_urls);
        let prev = plans(calls.drop_last(), urls_fetched, max_urls);
        let all = plans(calls, urls_fetched, max_urls);
        assert(all.drop_last() =~= prev);
    }
}

impl AgentRun {
    /// Takes the outcome of a model call. A failed call ends the run with a fatal error. A
    /// reply that stops (or gives no finish reason) ends it with the report built from the
    /// reply's text and the audit trail. A reply that is neither a stop nor a set of tool
    /// calls ends it with a fatal error. A set of tool calls ends it when one of them repeats
    /// one of the three fingerprints before it; otherwise the calls are planned, a
    /// `fetch_url` being refused once the fetch limit is reached.
    #[verifier::loop_isolation(false)]
    pub fn on_model_outcome(self, outcome: ModelOutcome) -> (res: ModelStep)
        requires
            self.wf(),
            outcome matches ModelOutcome::Reply { retries, duration_ms, .. }
                ==> self.metrics.can_record_model_call(duration_ms, retries),
        ensures
            res matches ModelStep::Finished(r) ==> r.iterations <= self.config.max_iterations,
            outcome matches ModelOutcome::Failed(e) ==> (res matches ModelStep::Finished(r) && r@
                == finished_view(self, None, TerminationReasonView::FatalError(e@))),
            outcome matches ModelOutcome::Reply { reply, retries, duration_ms } ==> {
                let fr = view_or(reply.finish_reason, "stop"@);
                &&& fr == "stop"@ ==> (res matches ModelStep::Finished(r) && r@ == finished_view(
                    self,
                    Some(
                        search_report(
                            self.question@,
                            view_or(reply.content, ""@),
                            log_view(self.tool_calls_log@),
                        ),
                    ),
                    TerminationReasonView::Completed,
                ))
                &&& (fr != "stop"@ && reply.tool_calls is None) ==> (res matches ModelStep::Finished(
                    r,
                ) && r@ == finished_view(
                    self,
                    None,
                    TerminationReasonView::FatalError("unexpected finish_reason: "@ + fr),
                ))
                &&& (fr != "stop"@ && reply.tool_calls is Some) ==> {
                    let calls = reply.tool_calls->0@;
                    let fps = fingerprints(calls);
                    &&& !no_repeat_upto(self.recent_fingerprints.deep_view(), fps, fps.len() as int)
                        ==> (res matches ModelStep::Finished(r) && r@ == finished_view(
                        self,
                        None,
                        TerminationReasonView::LoopDetected,
                    ))
                    &&& no_repeat_upto(self.recent_fingerprints.deep_view(), fps, fps.len() as int)
                        ==> (res matches ModelStep::RunTools(next) && {
                        &&& next.wf()
                        &&& next.question == self.question
                        &&& next.config == self.config
                        &&& next.iterations == self.iterations
                        &&& next.tool_calls_log == self.tool_calls_log
                        &&& next.metrics == (RunMetrics {
                            model_calls: (self.metrics.model_calls + 1) as u32,
                            model_retries: (self.metrics.model_retries + retries) as u32,
                            total_model_latency_ms: (self.metrics.total_model_latency_ms
                                + duration_ms) as u64,
                            ..self.metrics
                        })
                        &&& next.messages@ == self.messages@.push(assistant_message(reply))
                        &&& next.recent_fingerprints.deep_view()
                            == self.recent_fingerprints.deep_view() + fps
                        &&& plan_views(next.pending@) == plans(
                            calls,
                            self.metrics.urls_fetched as nat,
                            self.config.max_urls_fetched as nat,
                        )
                    })
                }
            },
    {
        let mut run = self;
        let (reply, retries, duration_ms) = match outcome {
            ModelOutcome::Failed(e) => {
                return ModelStep::Finished(run.finish(None, TerminationReason::FatalError(e)));
            },
            ModelOutcome::Reply { reply, retries, duration_ms } => (reply, retries, duration_ms),
        };
        run.metrics.record_model_call(duration_ms, retries);
        let finish_reason = match &reply.finish_reason {
            Some(f) => copy_str(f.as_str()),
            None => "stop".to_string(),
        };
        if str_eq(finish_reason.as_str(), "stop") {
            let content = match &reply.content {
                Some(c) => copy_str(c.as_str()),
                None => String::new(),
            };
            proof {
                reveal_strlit("");
                assert(""@ =~= Seq::<char>::empty());
            }
            let report = build_search_report(run.question.as_str(), content.as_str(), run.tool_calls_log.as_slice());
            return ModelStep::Finished(run.finish(Some(report), TerminationReason::Completed));
        }
        let calls = match &reply.tool_calls {
            Some(c) => c,
            None => {
                let mut m = "unexpected finish_reason: ".to_string();
                push_str(&mut m, finish_reason.as_str());
                return ModelStep::Finished(run.finish(None, TerminationReason::FatalError(m)));
            },
        };
        let ghost recent0 = run.recent_fingerprints.deep_view();
        let ghost fps = fingerprints(calls@);
        let mut recent: Vec<String> = Vec::new();
        std::mem::swap(&mut recent, &mut run.recent_fingerprints);
        let mut k: usize = 0;
        while k < calls.len()
            invariant
                0 <= k <= calls@.len(),
                fps == fingerprints(calls@),
                recent.deep_view() == recent0 + fps.subrange(0, k as int),
                no_repeat_upto(recent0, fps, k as int),
            decreases calls@.len() - k,
        {
            let fp = fingerprint_of(&calls[k]);
            assert(fps[k as int] == fp@);
            if seen_in_last_three(&recent, fp.as_str()) {
                assert(!no_repeat_upto(recent0, fps, calls@.len() as int));
                return ModelStep::Finished(run.finish(None, TerminationReason::LoopDetected));
            }
            let ghost before = recent.deep_view();
            let ghost fpv = fp@;
            recent.push(fp);
            assert(recent.deep_view() =~= before.push(fpv));
            assert(fps.subrange(0, k + 1) =~= fps.subrange(0, k as int).push(fpv));
            assert(recent.deep_view() =~= recent0 + fps.subrange(0, k + 1));
            k = k + 1;
        }
        run.recent_fingerprints = recent;
        assert(fps.subrange(0, calls@.len() as int) =~= fps);
        let mut pending: Vec<PlannedCall> = Vec::new();
        let mut j: usize = 0;
        let urls_fetched = run.metrics.urls_fetched;
        let max_urls = run.config.max_urls_fetched;
        let mut runnable: usize = 0;
        assert(runnable_fetches(plan_views(run.pending@)) >= 0);
        while j < calls.len()
            invariant
                0 <= j <= calls@.len(),
                urls_fetched <= max_urls,
                pending@.map_values(|p: PlannedCall| p@) == plans(
                    calls@.subrange(0, j as int),
                    urls_fetched as nat,
                    max_urls as nat,
                ),
                runnable == runnable_fetches(pending@.map_values(|p: PlannedCall| p@)),
                urls_fetched + runnable <= max_urls,
            decreases calls@.len() - j,
        {
            let p = plan_of(&calls[j], urls_fetched + runnable, max_urls);
            let counts = str_eq(p.tool_name.as_str(), "fetch_url") && p.refusal.is_none();
            let ghost before = pending@;
            let ghost pv = p@;
            pending.push(p);
            assert(pending@ == before.push(p));
            assert(calls@.subrange(0, j + 1) =~= calls@.subrange(0, j as int).push(calls@[j as int]));
            assert(calls@.subrange(0, j + 1).drop_last() =~= calls@.subrange(0, j as int));
            assert(pending@.map_values(|p: PlannedCall| p@) =~= before.map_values(|p: PlannedCall| p@).push(pv));
            assert(pending@.map_values(|p: PlannedCall| p@) =~= plans(
                calls@.subrange(0, j + 1),
                urls_fetched as nat,
                max_urls as nat,
            ));
            assert(pending@.map_values(|p: PlannedCall| p@).drop_last() =~= before.map_values(|p: PlannedCall| p@));
            assert(runnable_fetch(pv) == counts);
            if counts {
                runnable = runnable + 1;
            }
            j = j + 1;
        }
        assert(calls@.subrange(0, calls@.len() as int) =~= calls@);
        run.pending = pending;
        run.messages.push(ChatMessage::Assistant {
            content: reply.content,
            tool_calls: reply.tool_calls,
            raw: reply.raw,
        });
        ModelStep::RunTools(run)
    }
}


pub proof fn lemma_total_duration_append(a: Seq<ToolCallView>, b: Seq<ToolCallView>)
    ensures
        total_duration(a + b) == total_duration(a) + total_duration(b),
    decreases b.len(),
{
    if b.len() == 0 {
        assert(a + b =~= a);
    } else {
        lemma_total_duration_append(a, b.drop_last());
        assert((a + b).drop_last() =~= a + b.drop_last());
        assert((a + b).last() == b.last());
    }
}

pub proof fn lemma_total_duration_prefix(s: Seq<ToolCallView>, i: int)
    requires
        0 <= i <= s.len(),
    ensures
        total_duration(s.subrange(0, i)) <= total_duration(s),
    decreases s.len() - i,
{
    if i < s.len() {
        lemma_total_duration_prefix(s, i + 1);
        assert(s.subrange(0, i + 1).drop_last() =~= s.subrange(0, i));
    } else {
        assert(s.subrange(0, i) =~= s);
    }
}

pub proof fn lemma_runnable_fetches_prefix(ps: Seq<PlannedCallView>, i: int)
    requires
        0 <= i <= ps.len(),
    ensures
        runnable_fetches(ps.subrange(0, i)) <= runnable_fetches(ps),
    decreases ps.len() - i,
{
    if i < ps.len() {
        lemma_runnable_fetches_prefix(ps, i + 1);
        assert(ps.subrange(0, i + 1).drop_last() =~= ps.subrange(0, i));
    } else {
        assert(ps.subrange(0, i) =~= ps);
    }
}

pub open spec fn plan_views(pending: Seq<PlannedCall>) -> Seq<PlannedCallView> {
    pending.map_values(|p: PlannedCall| p@)
}

impl AgentRun {
    /// The counters can take the outcomes of the pending calls.
    pub open spec fn can_take_outcomes(&self, outcomes: Seq<Option<ToolOutcome>>) -> bool {
        &&& self.metrics.total_tool_calls + outcomes.len() <= u32::MAX
        &&& self.metrics.urls_fetched + outcomes.len() <= usize::MAX
        &&& self.metrics.total_tool_latency_ms + total_duration(
            executed_calls(plan_views(self.pending@), outcomes),
        ) <= u64::MAX
    }

    /// The pending calls that are to be run, not refused.
    pub open spec fn outcomes_cover(&self, outcomes: Seq<Option<ToolOutcome>>) -> bool {
        &&& outcomes.len() == self.pending@.len()
        &&& forall|i: int|
            0 <= i < outcomes.len() ==> (#[trigger] self.pending@[i]).refusal is None
                ==> outcomes[i] is Some
    }

    /// Whether the counters can take these outcomes, which `on_tool_outcomes` needs.
    pub fn fits_outcomes(&self, outcomes: &Vec<Option<ToolOutcome>>) -> (res: bool)
        requires
            self.outcomes_cover(outcomes@),
        ensures
            res == self.can_take_outcomes(outcomes@),
    {
        let n = outcomes.len();
        if n as u64 > (u32::MAX - self.metrics.total_tool_calls) as u64 {
            return false;
        }
        if n > usize::MAX - self.metrics.urls_fetched {
            return false;
        }
        let ghost ex = executed_calls(plan_views(self.pending@), outcomes@);
        let mut total: u64 = self.metrics.total_tool_latency_ms;
        let mut i: usize = 0;
        while i < n
            invariant
                0 <= i <= n,
                n == outcomes@.len(),
                self.outcomes_cover(outcomes@),
                ex == executed_calls(plan_views(self.pending@), outcomes@),
                total == self.metrics.total_tool_latency_ms + total_duration(ex.subrange(0, i as int)),
            decreases n - i,
        {
            proof {
                assert(ex.subrange(0, i + 1).drop_last() =~= ex.subrange(0, i as int));
                lemma_total_duration_prefix(ex, i + 1);
            }
            let d = match &self.pending[i].refusal {
                Some(_) => 0,
                None => match &outcomes[i] {
                    Some(o) => o.duration_ms,
                    None => 0,
                },
            };
            assert(d == ex[i as int].duration_ms);
            if d > u64::MAX - total {
                proof {
                    lemma_total_duration_prefix(ex, i + 1);
                }
                return false;
            }
            total = total + d;
            i = i + 1;
        }
        assert(ex.subrange(0, n as int) =~= ex);
        true
    }

    /// Takes the outcomes of the pending calls, in order: each call, refused or run, is
    /// recorded in the audit trail and counted, a successful `fetch_url` also as a fetched
    /// URL, and its result goes into the conversation for the model.
    pub fn on_tool_outcomes(self, outcomes: Vec<Option<ToolOutcome>>) -> (res: AgentRun)
        requires
            self.wf(),
            self.outcomes_cover(outcomes@),
            self.can_take_outcomes(outcomes@),
        ensures
            res.wf(),
            res.question == self.question,
            res.config == self.config,
            res.iterations == self.iterations,
            res.recent_fingerprints == self.recent_fingerprints,
            res.pending@.len() == 0,
            log_view(res.tool_calls_log@) == log_view(self.tool_calls_log@) + executed_calls(
                plan_views(self.pending@),
                outcomes@,
            ),
            res.messages@.len() == self.messages@.len() + outcomes@.len(),
            res.messages@.subrange(0, self.messages@.len() as int) == self.messages@,
            forall|i: int|
                0 <= i < outcomes@.len() ==> is_tool_message(
                    #[trigger] res.messages@[self.messages@.len() + i],
                    self.pending@[i].tool_id@,
                    executed(self.pending@[i]@, outcomes@[i]).output.json(),
                ),
            res.metrics.model_calls == self.metrics.model_calls,
            res.metrics.model_retries == self.metrics.model_retries,
            res.metrics.total_model_latency_ms == self.metrics.total_model_latency_ms,
            res.metrics.estimated_tokens_used == self.metrics.estimated_tokens_used,
            res.metrics.retried_tool_calls == self.metrics.retried_tool_calls,
    {
        let mut run = self;
        let ghost ps = plan_views(run.pending@);
        let ghost ex = executed_calls(ps, outcomes@);
        let ghost l0 = log_view(run.tool_calls_log@);
        let ghost m0 = run.messages@;
        let ghost metrics0 = run.metrics;
        let mut pending: Vec<PlannedCall> = Vec::new();
        std::mem::swap(&mut pending, &mut run.pending);
        let mut log: Vec<ToolCall> = Vec::new();
        std::mem::swap(&mut log, &mut run.tool_calls_log);
        let mut messages: Vec<ChatMessage> = Vec::new();
        std::mem::swap(&mut messages, &mut run.messages);
        let mut metrics = RunMetrics::default();
        std::mem::swap(&mut metrics, &mut run.metrics);
        let max_urls = run.config.max_urls_fetched;
        proof {
            lemma_counts_split(l0);
            assert(ps.subrange(0, 0) =~= Seq::<PlannedCallView>::empty());
        }
        let n = outcomes.len();
        let mut i: usize = 0;
        while i < n
            invariant
                0 <= i <= n,
                n == outcomes@.len() == pending@.len(),
                ps == plan_views(pending@),
                ex == executed_calls(ps, outcomes@),
                forall|k: int|
                    0 <= k < n ==> (#[trigger] pending@[k]).refusal is None ==> outcomes@[k] is Some,
                metrics0.total_tool_calls + n <= u32::MAX,
                metrics0.urls_fetched + n <= usize::MAX,
                metrics0.total_tool_latency_ms + total_duration(ex) <= u64::MAX,
                metrics0.total_tool_calls == l0.len(),
                metrics0.total_tool_latency_ms == total_duration(l0),
                metrics0.urls_fetched == successful_fetches(l0),
                log_view(log@) == l0 + ex.subrange(0, i as int),
                metrics.total_tool_calls == log@.len(),
                metrics.successful_tool_calls == successes(log_view(log@)),
                metrics.failed_tool_calls == failures(log_view(log@)),
                metrics.total_tool_latency_ms == total_duration(log_view(log@)),
                metrics.urls_fetched == successful_fetches(log_view(log@)),
                metrics.urls_fetched <= metrics0.urls_fetched + i,
                metrics.urls_fetched <= metrics0.urls_fetched + runnable_fetches(ps.subrange(0, i as int)),
                metrics0.urls_fetched + runnable_fetches(ps) <= max_urls,
                metrics.model_calls == metrics0.model_calls,
                metrics.model_retries == metrics0.model_retries,
                metrics.total_model_latency_ms == metrics0.total_model_latency_ms,
                metrics.estimated_tokens_used == metrics0.estimated_tokens_used,
                metrics.retried_tool_calls == metrics0.retried_tool_calls,
                messages@.len() == m0.len() + i,
                messages@.subrange(0, m0.len() as int) == m0,
                forall|k: int|
                    0 <= k < i ==> is_tool_message(
                        #[trigger] messages@[m0.len() + k],
                        pending@[k].tool_id@,
                        executed(pending@[k]@, outcomes@[k]).output.json(),
                    ),
            decreases n - i,
        {
            let p = &pending[i];
            let (result, duration_ms) = match &p.refusal {
                Some(r) => (r.duplicate(), 0u64),
                None => match &outcomes[i] {
                    Some(o) => (o.result.duplicate(), o.duration_ms),
                    None => {
                        assert(false);
                        (ToolResult::Error { category: String::new(), message: String::new() }, 0u64)
                    },
                },
            };
            let ghost call = ex[i as int];
            assert(ps[i as int] == p@);
            assert(call == executed(p@, outcomes@[i as int]));
            assert(result@ == call.output && duration_ms == call.duration_ms);
            let ghost lv_before = log_view(log@);
            proof {
                assert(ps.subrange(0, i + 1).drop_last() =~= ps.subrange(0, i as int));
                assert(ps.subrange(0, i + 1).last() == ps[i as int]);
                lemma_runnable_fetches_prefix(ps, i + 1);
                lemma_counts_split(lv_before);
                assert(lv_before.len() == l0.len() + i);
                lemma_total_duration_append(l0, ex.subrange(0, i + 1));
                lemma_total_duration_prefix(ex, i + 1);
                assert(ex.subrange(0, i + 1).drop_last() =~= ex.subrange(0, i as int));
                lemma_total_duration_append(l0, ex.subrange(0, i as int));
            }
            let is_success = match &result {
                ToolResult::Success { .. } => true,
                ToolResult::Error { .. } => false,
            };
            let is_fetch = str_eq(p.tool_name.as_str(), "fetch_url");
            if is_fetch && is_success {
                metrics.urls_fetched = metrics.urls_fetched + 1;
            }
            if is_success {
                metrics.record_tool_success(duration_ms);
            } else {
                metrics.record_tool_failure(duration_ms);
            }
            let content = result.to_json();
            let id = p.tool_id.clone();
            log.push(ToolCall {
                tool_name: p.tool_name.clone(),
                input: p.args.clone(),
                output: result,
                duration_ms,
            });
            messages.push(ChatMessage::Tool { tool_call_id: id, content });
            proof {
                assert(log_view(log@) =~= lv_before.push(call));
                assert(log_view(log@) =~= l0 + ex.subrange(0, i + 1));
                assert(log_view(log@).drop_last() =~= lv_before);
                assert(messages@.subrange(0, m0.len() as int) =~= m0);
                assert(is_tool_message(
                    messages@[m0.len() + i],
                    pending@[i as int].tool_id@,
                    executed(pending@[i as int]@, outcomes@[i as int]).output.json(),
                ));
            }
            i = i + 1;
        }
        assert(ex.subrange(0, n as int) =~= ex);
        assert(ps.subrange(0, n as int) =~= ps);
        run.tool_calls_log = log;
        run.messages = messages;
        run.metrics = metrics;
        assert(run.messages@[0] == m0[0]);
        run
    }
}


// ---------------------------------------------------------------------------
// Laws
// ---------------------------------------------------------------------------

/// Pruning keeps the question first and drops exactly two messages, and only when there are
/// more than ten.
pub proof fn law_pruning_keeps_question<T>(ms: Seq<T>)
    requires
        ms.len() >= 1,
    ensures
        pruned(ms)[0] == ms[0],
        ms.len() <= 10 ==> pruned(ms) == ms,
        ms.len() > 10 ==> pruned(ms).len() == ms.len() - 2,
{
}

/// The estimated size of a conversation is the sum of its messages' sizes: nothing for no
/// message, and the sizes of two parts add up when they are joined.
pub proof fn law_context_size_adds(a: Seq<ChatMessage>, b: Seq<ChatMessage>)
    ensures
        context_size(Seq::<ChatMessage>::empty()) == 0,
        context_size(a + b) == context_size(a) + context_size(b),
    decreases b.len(),
{
    if b.len() == 0 {
        assert(a + b =~= a);
    } else {
        law_context_size_adds(a, b.drop_last());
        assert((a + b).drop_last() =~= a + b.drop_last());
        assert((a + b).last() == b.last());
    }
}

/// Pruning never makes the conversation larger.
pub proof fn law_pruning_shrinks_context(ms: Seq<ChatMessage>)
    ensures
        context_size(pruned(ms)) <= context_size(ms),
{
    if ms.len() > 10 {
        let head = seq![ms[0]];
        let middle = ms.subrange(1, 3);
        let tail = ms.subrange(3, ms.len() as int);
        assert(ms =~= head + middle + tail);
        law_context_size_adds(head + middle, tail);
        law_context_size_adds(head, middle);
        law_context_size_adds(head, tail);
    }
}

/// Each wait between retries is twice the one before, until it reaches the ceiling, which it
/// then keeps.
pub proof fn law_backoff_doubles(config: RetryConfig, attempt: nat)
    requires
        attempt >= 1,
    ensures
        retry_wait(config, attempt + 1)->0 == if 2 * retry_wait(config, attempt)->0
            <= config.max_delay_ms {
            2 * retry_wait(config, attempt)->0
        } else {
            config.max_delay_ms as nat
        },
{
    let base = config.base_delay_ms as nat;
    let e = (attempt - 1) as nat;
    vstd::arithmetic::power2::lemma_pow2_unfold(attempt);
    assert(base * pow2(attempt) == 2 * (base * pow2(e))) by (nonlinear_arith)
        requires
            pow2(attempt) == 2 * pow2(e),
    ;
}

proof fn lemma_decimal_three(n: nat)
    requires
        100 <= n < 1000,
    ensures
        decimal(n) == seq![
            crate::text::digit_char(n / 100),
            crate::text::digit_char((n / 10) % 10),
            crate::text::digit_char(n % 10),
        ],
{
    assert(decimal(n / 100) == seq![crate::text::digit_char(n / 100)]);
    assert((n / 10) / 10 == n / 100);
    assert(decimal(n / 10) == decimal(n / 100).push(crate::text::digit_char((n / 10) % 10)));
    assert(decimal(n) =~= seq![
        crate::text::digit_char(n / 100),
        crate::text::digit_char((n / 10) % 10),
        crate::text::digit_char(n % 10),
    ]);
}

/// A model reply with status 429, 500, 502, 503 or 504 is retried, whatever its body says.
pub proof fn law_transient_statuses_are_retried(status: u16, body: Seq<char>)
    requires
        retryable_status(status),
    ensures
        retryable_model_error(model_status_error(status, body)),
{
    lemma_decimal_three(status as nat);
    let e = model_status_error(status, body);
    let code = decimal(status as nat);
    assert(e.subrange(0, 3) =~= code);
    reveal_strlit("429");
    reveal_strlit("500");
    reveal_strlit("502");
    reveal_strlit("503");
    reveal_strlit("504");
    if status == 429 {
        assert(code =~= "429"@);
        assert(occurs_at(e, "429"@, 0));
    } else if status == 500 {
        assert(code =~= "500"@);
        assert(occurs_at(e, "500"@, 0));
    } else if status == 502 {
        assert(code =~= "502"@);
        assert(occurs_at(e, "502"@, 0));
    } else if status == 503 {
        assert(code =~= "503"@);
        assert(occurs_at(e, "503"@, 0));
    } else {
        assert(code =~= "504"@);
        assert(occurs_at(e, "504"@, 0));
    }
}

/// The marks that make a model error retryable.
pub open spec fn retry_marks() -> Seq<Seq<char>> {
    seq!["429"@, "500"@, "502"@, "503"@, "504"@, "timed out"@, "connection"@]
}

proof fn lemma_no_mark_in_prefixed(prefix: Seq<char>, body: Seq<char>, mark: Seq<char>)
    requires
        mark.len() >= 1,
        !contains(body, mark),
        forall|p: int| 0 <= p < prefix.len() ==> !occurs_at(prefix + body, mark, p),
    ensures
        !contains(prefix + body, mark),
{
    assert forall|p: int| !occurs_at(prefix + body, mark, p) by {
        if p >= prefix.len() && occurs_at(prefix + body, mark, p) {
            assert((prefix + body).subrange(p, p + mark.len()) =~= body.subrange(
                p - prefix.len(),
                p - prefix.len() + mark.len(),
            ));
            assert(occurs_at(body, mark, p - prefix.len()));
        }
    }
}

/// A model reply with status 400, 401 or 403 fails at once, where its body names no mark of a
/// transient failure.
pub proof fn law_client_errors_fail_at_once(status: u16, body: Seq<char>)
    requires
        status == 400 || status == 401 || status == 403,
        forall|i: int| 0 <= i < retry_marks().len() ==> !contains(body, #[trigger] retry_marks()[i]),
    ensures
        !retryable_model_error(model_status_error(status, body)),
{
    lemma_decimal_three(status as nat);
    reveal_strlit(" — ");
    reveal_strlit("429");
    reveal_strlit("500");
    reveal_strlit("502");
    reveal_strlit("503");
    reveal_strlit("504");
    reveal_strlit("timed out");
    reveal_strlit("connection");
    let prefix = decimal(status as nat) + " — "@;
    assert(model_status_error(status, body) == prefix + body);
    assert(prefix.len() == 6);
    assert(prefix[0] == '4' && prefix[1] == '0' && prefix[3] == ' ' && prefix[4] == '—'
        && prefix[5] == ' ');
    assert(prefix[2] == '0' || prefix[2] == '1' || prefix[2] == '3');
    assert forall|i: int| 0 <= i < retry_marks().len() implies !contains(
        prefix + body,
        #[trigger] retry_marks()[i],
    ) by {
        let mark = retry_marks()[i];
        assert(!contains(body, mark));
        assert forall|p: int| 0 <= p < prefix.len() implies !occurs_at(prefix + body, mark, p) by {
            if occurs_at(prefix + body, mark, p) {
                assert((prefix + body).subrange(p, p + mark.len())[0] == mark[0]);
                assert((prefix + body)[p] == prefix[p]);
                if p == 0 {
                    assert((prefix + body).subrange(p, p + mark.len())[1] == mark[1]);
                    assert((prefix + body)[1] == prefix[1]);
                }
            }
        }
        lemma_no_mark_in_prefixed(prefix, body, mark);
    }
    assert(retry_marks()[0] == "429"@);
    assert(retry_marks()[1] == "500"@);
    assert(retry_marks()[2] == "502"@);
    assert(retry_marks()[3] == "503"@);
    assert(retry_marks()[4] == "504"@);
    assert(retry_marks()[5] == "timed out"@);
    assert(retry_marks()[6] == "connection"@);
}

/// Once the fetch limit is reached, a `fetch_url` call is refused, with a non-retryable
/// error that tells the model to work with what it has; no other call is ever refused.
pub proof fn law_fetch_limit(tc: ModelToolCall, urls_fetched: nat, max_urls: nat)
    ensures
        (view_or(tc.name, ""@) == "fetch_url"@ && urls_fetched >= max_urls) ==> plan_call(
            tc,
            urls_fetched,
            max_urls,
        ).refusal == Some(
            ToolResultView::Error { category: "non_retryable"@, message: url_limit_message(max_urls) },
        ),
        (view_or(tc.name, ""@) != "fetch_url"@ || urls_fetched < max_urls) ==> plan_call(
            tc,
            urls_fetched,
            max_urls,
        ).refusal is None,
{
}


/// A run never fetches more pages than its limit allows.
pub proof fn law_fetches_within_limit(run: AgentRun)
    requires
        run.wf(),
    ensures
        run.metrics.urls_fetched <= run.config.max_urls_fetched,
        run.iterations <= run.config.max_iterations,
{
}

} // verus!
