//! Token usage accounting.
use vstd::prelude::*;

verus! {

/// Accumulated token counts over language model requests.
#[derive(Debug, Default)]
pub struct UsageTracker {
    prompt_tokens: u64,
    completion_tokens: u64,
    requests: u64,
}

/// A snapshot of the accumulated counts.
#[derive(Debug, Clone, Copy)]
pub struct UsageSummary {
    pub prompt_tokens: u64,
    pub completion_tokens: u64,
    pub total_tokens: u64,
    pub requests: u64,
}

/// The model of a tracker: prompt tokens, completion tokens, requests.
pub struct UsageModel {
    pub prompt: u64,
    pub completion: u64,
    pub requests: u64,
}

impl View for UsageTracker {
    type V = UsageModel;

    closed spec fn view(&self) -> UsageModel {
        UsageModel { prompt: self.prompt_tokens, completion: self.completion_tokens, requests: self.requests }
    }
}

/// `a + b` in 64-bit arithmetic that wraps around, as an atomic counter adds.
pub open spec fn wrap_add(a: u64, b: u64) -> u64 {
    ((a as int + b as int) % 0x1_0000_0000_0000_0000) as u64
}

/// The counts after one request with these token counts.
pub open spec fn record_model(m: UsageModel, prompt_tokens: u32, completion_tokens: u32) -> UsageModel {
    UsageModel {
        prompt: wrap_add(m.prompt, prompt_tokens as u64),
        completion: wrap_add(m.completion, completion_tokens as u64),
        requests: wrap_add(m.requests, 1),
    }
}

/// The counts after the requests `calls` (prompt and completion tokens
/// each), recorded one after another.
pub open spec fn recorded(m: UsageModel, calls: Seq<(u32, u32)>) -> UsageModel
    decreases calls.len(),
{
    if calls.len() == 0 {
        m
    } else {
        record_model(recorded(m, calls.drop_last()), calls.last().0, calls.last().1)
    }
}

/// The prompt tokens of the calls, summed.
pub open spec fn prompt_sum(calls: Seq<(u32, u32)>) -> int
    decreases calls.len(),
{
    if calls.len() == 0 {
        0
    } else {
        prompt_sum(calls.drop_last()) + calls.last().0
    }
}

/// The completion tokens of the calls, summed.
pub open spec fn completion_sum(calls: Seq<(u32, u32)>) -> int
    decreases calls.len(),
{
    if calls.len() == 0 {
        0
    } else {
        completion_sum(calls.drop_last()) + calls.last().1
    }
}

/// After a run of requests, no update is lost: where no counter passes
/// `u64::MAX`, each count grows by the sum of the requests' counts, their
/// total by both sums, and the request count by their number.
pub proof fn law_records_accumulate(m: UsageModel, calls: Seq<(u32, u32)>)
    requires
        m.prompt + prompt_sum(calls) <= u64::MAX,
        m.completion + completion_sum(calls) <= u64::MAX,
        m.requests + calls.len() <= u64::MAX,
    ensures
        recorded(m, calls).prompt == m.prompt + prompt_sum(calls),
        recorded(m, calls).completion == m.completion + completion_sum(calls),
        recorded(m, calls).requests == m.requests + calls.len(),
        recorded(m, calls).prompt + recorded(m, calls).completion
            == m.prompt + m.completion + prompt_sum(calls) + completion_sum(calls),
    decreases calls.len(),
{
    if calls.len() > 0 {
        let d = calls.drop_last();
        lemma_sums_nonneg(d);
        law_records_accumulate(m, d);
    }
}

proof fn lemma_sums_nonneg(calls: Seq<(u32, u32)>)
    ensures
        prompt_sum(calls) >= 0,
        completion_sum(calls) >= 0,
    decreases calls.len(),
{
    if calls.len() > 0 {
        lemma_sums_nonneg(calls.drop_last());
    }
}

impl UsageTracker {
    /// A tracker with all counts zero.
    pub fn new() -> (r: UsageTracker)
        ensures
            r@.prompt == 0,
            r@.completion == 0,
            r@.requests == 0,
    {
        UsageTracker { prompt_tokens: 0, completion_tokens: 0, requests: 0 }
    }

    /// Adds one request with its prompt and completion token counts.
    pub fn record(&mut self, prompt_tokens: u32, completion_tokens: u32)
        ensures
            final(self)@.prompt == wrap_add(old(self)@.prompt, prompt_tokens as u64),
            final(self)@.completion == wrap_add(old(self)@.completion, completion_tokens as u64),
            final(self)@.requests == wrap_add(old(self)@.requests, 1),
            final(self)@ == record_model(old(self)@, prompt_tokens, completion_tokens),
    {
        self.prompt_tokens = self.prompt_tokens.wrapping_add(prompt_tokens as u64);
        self.completion_tokens = self.completion_tokens.wrapping_add(completion_tokens as u64);
        self.requests = self.requests.wrapping_add(1);
    }

    /// The accumulated counts, with their total.
    pub fn summary(&self) -> (r: UsageSummary)
        requires
            self@.prompt + self@.completion <= u64::MAX,
        ensures
            r.prompt_tokens == self@.prompt,
            r.completion_tokens == self@.completion,
            r.total_tokens == self@.prompt + self@.completion,
            r.requests == self@.requests,
    {
        UsageSummary {
            prompt_tokens: self.prompt_tokens,
            completion_tokens: self.completion_tokens,
            total_tokens: self.prompt_tokens + self.completion_tokens,
            requests: self.requests,
        }
    }

    /// Sets all counts back to zero.
    pub fn reset(&mut self)
        ensures
            final(self)@.prompt == 0,
            final(self)@.completion == 0,
            final(self)@.requests == 0,
    {
        self.prompt_tokens = 0;
        self.completion_tokens = 0;
        self.requests = 0;
    }
}

} // verus!
