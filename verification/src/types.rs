//! The data the agent records: tool errors and results, the audit trail, the final report.
use vstd::prelude::*;
use crate::json::{json_object, json_quote, json_quote_spec, write_json_object, field_views};
use crate::text::push_str;

verus! {

/// How a tool failed.
#[derive(Debug)]
pub enum ToolError {
    /// A transient condition; worth retrying after a pause.
    Retryable(String),
    /// A structural problem; retrying is pointless.
    NonRetryable(String),
    /// This input failed, but the run can go on without it.
    Degraded { url: String, reason: String },
}

pub enum ToolErrorView {
    Retryable(Seq<char>),
    NonRetryable(Seq<char>),
    Degraded { url: Seq<char>, reason: Seq<char> },
}

impl View for ToolError {
    type V = ToolErrorView;

    open spec fn view(&self) -> ToolErrorView {
        match self {
            ToolError::Retryable(m) => ToolErrorView::Retryable(m@),
            ToolError::NonRetryable(m) => ToolErrorView::NonRetryable(m@),
            ToolError::Degraded { url, reason } => ToolErrorView::Degraded {
                url: url@,
                reason: reason@,
            },
        }
    }
}

impl ToolErrorView {
    /// The text that the error displays.
    pub open spec fn display(self) -> Seq<char> {
        match self {
            ToolErrorView::Retryable(m) => "retryable: "@ + m,
            ToolErrorView::NonRetryable(m) => "non_retryable: "@ + m,
            ToolErrorView::Degraded { url, reason } => "degraded("@ + url + "): "@ + reason,
        }
    }

    /// The category that a tool result records for this error.
    pub open spec fn category(self) -> Seq<char> {
        match self {
            ToolErrorView::Retryable(_) => "retryable"@,
            ToolErrorView::NonRetryable(_) => "non_retryable"@,
            ToolErrorView::Degraded { .. } => "degraded"@,
        }
    }

    /// The message that a tool result records for this error.
    pub open spec fn message(self) -> Seq<char> {
        match self {
            ToolErrorView::Retryable(m) => m,
            ToolErrorView::NonRetryable(m) => m,
            ToolErrorView::Degraded { url, reason } => url + ": "@ + reason,
        }
    }
}

impl ToolError {
    /// The error as text: `retryable: …`, `non_retryable: …` or `degraded(url): reason`.
    pub fn to_string(&self) -> (res: String)
        ensures
            res@ == self@.display(),
    {
        match self {
            ToolError::Retryable(m) => {
                let mut s = "retryable: ".to_string();
                push_str(&mut s, m.as_str());
                s
            },
            ToolError::NonRetryable(m) => {
                let mut s = "non_retryable: ".to_string();
                push_str(&mut s, m.as_str());
                s
            },
            ToolError::Degraded { url, reason } => {
                let mut s = "degraded(".to_string();
                push_str(&mut s, url.as_str());
                push_str(&mut s, "): ");
                push_str(&mut s, reason.as_str());
                s
            },
        }
    }
}

/// What a tool call gave back to the model.
#[derive(Debug, Clone)]
pub enum ToolResult {
    /// The tool's output, as JSON text.
    Success { data: String },
    Error { category: String, message: String },
}

pub enum ToolResultView {
    Success { data: Seq<char> },
    Error { category: Seq<char>, message: Seq<char> },
}

impl View for ToolResult {
    type V = ToolResultView;

    open spec fn view(&self) -> ToolResultView {
        match self {
            ToolResult::Success { data } => ToolResultView::Success { data: data@ },
            ToolResult::Error { category, message } => ToolResultView::Error {
                category: category@,
                message: message@,
            },
        }
    }
}

impl ToolResultView {
    pub open spec fn is_success(self) -> bool {
        self is Success
    }

    /// The result as JSON text: `{"status":"success","data":…}` or
    /// `{"status":"error","category":…,"message":…}`.
    pub open spec fn json(self) -> Seq<char> {
        match self {
            ToolResultView::Success { data } => json_object(
                seq![("status"@, json_quote_spec("success"@)), ("data"@, data)],
            ),
            ToolResultView::Error { category, message } => json_object(
                seq![
                    ("status"@, json_quote_spec("error"@)),
                    ("category"@, json_quote_spec(category)),
                    ("message"@, json_quote_spec(message)),
                ],
            ),
        }
    }
}

/// The result view that `ToolResult::from_error` gives for `e`.
pub open spec fn error_result(e: ToolErrorView) -> ToolResultView {
    ToolResultView::Error { category: e.category(), message: e.message() }
}

impl ToolResult {
    pub fn ok(data: String) -> (res: ToolResult)
        ensures
            res@ == (ToolResultView::Success { data: data@ }),
    {
        ToolResult::Success { data }
    }

    /// The result that a failed call records: the error's category and its message.
    pub fn from_error(e: &ToolError) -> (res: ToolResult)
        ensures
            res@ == error_result(e@),
    {
        match e {
            ToolError::Retryable(m) => ToolResult::Error {
                category: "retryable".to_string(),
                message: m.clone(),
            },
            ToolError::NonRetryable(m) => ToolResult::Error {
                category: "non_retryable".to_string(),
                message: m.clone(),
            },
            ToolError::Degraded { url, reason } => {
                let mut message = url.clone();
                push_str(&mut message, ": ");
                push_str(&mut message, reason.as_str());
                ToolResult::Error { category: "degraded".to_string(), message }
            },
        }
    }

    /// The result as the JSON text that is handed back to the model.
    pub fn to_json(&self) -> (res: String)
        ensures
            res@ == self@.json(),
    {
        let mut fields: Vec<(String, String)> = Vec::new();
        match self {
            ToolResult::Success { data } => {
                fields.push(("status".to_string(), json_quote("success")));
                fields.push(("data".to_string(), data.clone()));
            },
            ToolResult::Error { category, message } => {
                fields.push(("status".to_string(), json_quote("error")));
                fields.push(("category".to_string(), json_quote(category.as_str())));
                fields.push(("message".to_string(), json_quote(message.as_str())));
            },
        }
        let res = write_json_object(&fields);
        proof {
            match self@ {
                ToolResultView::Success { data } => {
                    assert(field_views(fields@) =~= seq![
                        ("status"@, json_quote_spec("success"@)),
                        ("data"@, data),
                    ]);
                },
                ToolResultView::Error { category, message } => {
                    assert(field_views(fields@) =~= seq![
                        ("status"@, json_quote_spec("error"@)),
                        ("category"@, json_quote_spec(category)),
                        ("message"@, json_quote_spec(message)),
                    ]);
                },
            }
        }
        res
    }
}

/// One entry of the audit trail.
#[derive(Debug)]
pub struct ToolCall {
    pub tool_name: String,
    /// The call's arguments, as JSON text.
    pub input: String,
    pub output: ToolResult,
    pub duration_ms: u64,
}

pub struct ToolCallView {
    pub tool_name: Seq<char>,
    pub input: Seq<char>,
    pub output: ToolResultView,
    pub duration_ms: u64,
}

impl View for ToolCall {
    type V = ToolCallView;

    open spec fn view(&self) -> ToolCallView {
        ToolCallView {
            tool_name: self.tool_name@,
            input: self.input@,
            output: self.output@,
            duration_ms: self.duration_ms,
        }
    }
}

/// Why a run ended.
#[derive(Debug)]
pub enum TerminationReason {
    Completed,
    MaxIterationsReached,
    LoopDetected,
    FatalError(String),
}

pub enum TerminationReasonView {
    Completed,
    MaxIterationsReached,
    LoopDetected,
    FatalError(Seq<char>),
}

impl View for TerminationReason {
    type V = TerminationReasonView;

    open spec fn view(&self) -> TerminationReasonView {
        match self {
            TerminationReason::Completed => TerminationReasonView::Completed,
            TerminationReason::MaxIterationsReached => TerminationReasonView::MaxIterationsReached,
            TerminationReason::LoopDetected => TerminationReasonView::LoopDetected,
            TerminationReason::FatalError(m) => TerminationReasonView::FatalError(m@),
        }
    }
}

/// A source that the agent read.
#[derive(Debug)]
pub struct Source {
    pub title: String,
    pub url: String,
    pub snippet: String,
}

pub struct SourceView {
    pub title: Seq<char>,
    pub url: Seq<char>,
    pub snippet: Seq<char>,
}

impl View for Source {
    type V = SourceView;

    open spec fn view(&self) -> SourceView {
        SourceView { title: self.title@, url: self.url@, snippet: self.snippet@ }
    }
}

/// The structured report of a completed run.
#[derive(Debug)]
pub struct SearchReport {
    pub question: String,
    pub answer: String,
    pub sources: Vec<Source>,
    pub confidence: String,
    pub key_findings: Vec<String>,
    pub search_queries: Vec<String>,
    pub limitations: String,
}

pub struct SearchReportView {
    pub question: Seq<char>,
    pub answer: Seq<char>,
    pub sources: Seq<SourceView>,
    pub confidence: Seq<char>,
    pub key_findings: Seq<Seq<char>>,
    pub search_queries: Seq<Seq<char>>,
    pub limitations: Seq<char>,
}

impl View for SearchReport {
    type V = SearchReportView;

    open spec fn view(&self) -> SearchReportView {
        SearchReportView {
            question: self.question@,
            answer: self.answer@,
            sources: self.sources@.map_values(|s: Source| s@),
            confidence: self.confidence@,
            key_findings: self.key_findings.deep_view(),
            search_queries: self.search_queries.deep_view(),
            limitations: self.limitations@,
        }
    }
}

/// What a run hands back: how many iterations it took, its audit trail, the report of a
/// completed run and why it ended.
#[derive(Debug)]
pub struct AgentRunResult {
    pub iterations: u32,
    pub tool_calls: Vec<ToolCall>,
    pub report: Option<SearchReport>,
    pub termination_reason: TerminationReason,
}

} // verus!

verus! {

pub struct AgentRunResultView {
    pub iterations: u32,
    pub tool_calls: Seq<ToolCallView>,
    pub report: Option<SearchReportView>,
    pub termination_reason: TerminationReasonView,
}

impl View for AgentRunResult {
    type V = AgentRunResultView;

    open spec fn view(&self) -> AgentRunResultView {
        AgentRunResultView {
            iterations: self.iterations,
            tool_calls: self.tool_calls@.map_values(|t: ToolCall| t@),
            report: match self.report {
                Some(r) => Some(r@),
                None => None,
            },
            termination_reason: self.termination_reason@,
        }
    }
}

impl ToolResult {
    /// A copy of the result.
    pub fn duplicate(&self) -> (res: ToolResult)
        ensures
            res@ == self@,
    {
        match self {
            ToolResult::Success { data } => ToolResult::Success { data: data.clone() },
            ToolResult::Error { category, message } => ToolResult::Error {
                category: category.clone(),
                message: message.clone(),
            },
        }
    }
}


/// A retryable or non-retryable error displays as the category its result records, a colon
/// and the message its result records.
pub proof fn law_error_display_names_category(e: ToolErrorView)
    requires
        !(e is Degraded),
    ensures
        e.display() == error_result(e)->category + ": "@ + error_result(e)->message,
{
    reveal_strlit("retryable: ");
    reveal_strlit("retryable");
    reveal_strlit("non_retryable: ");
    reveal_strlit("non_retryable");
    reveal_strlit(": ");
    match e {
        ToolErrorView::Retryable(m) => {
            assert("retryable: "@ =~= "retryable"@ + ": "@);
            assert("retryable: "@ + m =~= "retryable"@ + ": "@ + m);
        },
        ToolErrorView::NonRetryable(m) => {
            assert("non_retryable: "@ =~= "non_retryable"@ + ": "@);
            assert("non_retryable: "@ + m =~= "non_retryable"@ + ": "@ + m);
        },
        ToolErrorView::Degraded { .. } => {},
    }
}

/// Every failure becomes an error result, never a success: a tool failure never stops the
/// run, it is handed to the model as an error.
pub proof fn law_failures_become_error_results(e: ToolErrorView)
    ensures
        error_result(e) is Error,
        error_result(e)->category == "retryable"@ || error_result(e)->category == "non_retryable"@
            || error_result(e)->category == "degraded"@,
{
}

} // verus!
