//! Counters of one agent run.
use vstd::prelude::*;

verus! {

#[derive(Debug, Clone, Copy)]
pub struct RunMetrics {
    pub total_tool_calls: u32,
    pub successful_tool_calls: u32,
    pub failed_tool_calls: u32,
    pub retried_tool_calls: u32,
    pub model_calls: u32,
    pub model_retries: u32,
    pub total_model_latency_ms: u64,
    pub total_tool_latency_ms: u64,
    pub urls_fetched: usize,
    pub estimated_tokens_used: usize,
}

impl RunMetrics {
    /// Every recorded tool call is counted once, as a success or as a failure.
    pub open spec fn tool_counts_consistent(&self) -> bool {
        self.total_tool_calls == self.successful_tool_calls + self.failed_tool_calls
    }

    pub open spec fn is_zero(&self) -> bool {
        &&& self.total_tool_calls == 0
        &&& self.successful_tool_calls == 0
        &&& self.failed_tool_calls == 0
        &&& self.retried_tool_calls == 0
        &&& self.model_calls == 0
        &&& self.model_retries == 0
        &&& self.total_model_latency_ms == 0
        &&& self.total_tool_latency_ms == 0
        &&& self.urls_fetched == 0
        &&& self.estimated_tokens_used == 0
    }

    /// The counters can take one more successful tool call of `duration_ms`.
    pub open spec fn can_record_success(&self, duration_ms: u64) -> bool {
        &&& self.total_tool_calls < u32::MAX
        &&& self.successful_tool_calls < u32::MAX
        &&& self.total_tool_latency_ms + duration_ms <= u64::MAX
    }

    /// The counters can take one more failed tool call of `duration_ms`.
    pub open spec fn can_record_failure(&self, duration_ms: u64) -> bool {
        &&& self.total_tool_calls < u32::MAX
        &&& self.failed_tool_calls < u32::MAX
        &&& self.total_tool_latency_ms + duration_ms <= u64::MAX
    }

    /// The counters can take one more model call.
    pub open spec fn can_record_model_call(&self, duration_ms: u64, retries: u32) -> bool {
        &&& self.model_calls < u32::MAX
        &&& self.model_retries + retries <= u32::MAX
        &&& self.total_model_latency_ms + duration_ms <= u64::MAX
    }

    pub fn record_tool_success(&mut self, duration_ms: u64)
        requires
            old(self).can_record_success(duration_ms),
        ensures
            *final(self) == (RunMetrics {
                total_tool_calls: (old(self).total_tool_calls + 1) as u32,
                successful_tool_calls: (old(self).successful_tool_calls + 1) as u32,
                total_tool_latency_ms: (old(self).total_tool_latency_ms + duration_ms) as u64,
                ..*old(self)
            }),
            old(self).tool_counts_consistent() ==> final(self).tool_counts_consistent(),
    {
        self.total_tool_calls += 1;
        self.successful_tool_calls += 1;
        self.total_tool_latency_ms += duration_ms;
    }

    pub fn record_tool_failure(&mut self, duration_ms: u64)
        requires
            old(self).can_record_failure(duration_ms),
        ensures
            *final(self) == (RunMetrics {
                total_tool_calls: (old(self).total_tool_calls + 1) as u32,
                failed_tool_calls: (old(self).failed_tool_calls + 1) as u32,
                total_tool_latency_ms: (old(self).total_tool_latency_ms + duration_ms) as u64,
                ..*old(self)
            }),
            old(self).tool_counts_consistent() ==> final(self).tool_counts_consistent(),
    {
        self.total_tool_calls += 1;
        self.failed_tool_calls += 1;
        self.total_tool_latency_ms += duration_ms;
    }

    pub fn record_model_call(&mut self, duration_ms: u64, retries: u32)
        requires
            old(self).can_record_model_call(duration_ms, retries),
        ensures
            *final(self) == (RunMetrics {
                model_calls: (old(self).model_calls + 1) as u32,
                model_retries: (old(self).model_retries + retries) as u32,
                total_model_latency_ms: (old(self).total_model_latency_ms + duration_ms) as u64,
                ..*old(self)
            }),
    {
        self.model_calls += 1;
        self.model_retries += retries;
        self.total_model_latency_ms += duration_ms;
    }

    /// The mean model latency, rounded down; 0 before any model call.
    pub fn avg_model_latency_ms(&self) -> (res: u64)
        ensures
            self.model_calls == 0 ==> res == 0,
            self.model_calls > 0 ==> res == self.total_model_latency_ms / (self.model_calls as u64),
    {
        if self.model_calls == 0 {
            return 0;
        }
        self.total_model_latency_ms / self.model_calls as u64
    }
}

impl Default for RunMetrics {
    fn default() -> (res: RunMetrics)
        ensures
            res.is_zero(),
    {
        RunMetrics {
            total_tool_calls: 0,
            successful_tool_calls: 0,
            failed_tool_calls: 0,
            retried_tool_calls: 0,
            model_calls: 0,
            model_retries: 0,
            total_model_latency_ms: 0,
            total_tool_latency_ms: 0,
            urls_fetched: 0,
            estimated_tokens_used: 0,
        }
    }
}

} // verus!
