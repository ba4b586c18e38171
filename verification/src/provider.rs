//! What the model clients decide on their own: where a request goes, which
//! role a message is sent as, and what is read back from a reply.
use vstd::prelude::*;
use crate::message::{MessageRole, Usage};
use crate::text::{trim_end_by, is_char, chars_of, trim_end_char, string_of, concat2};
use crate::value::{FieldValue, ValueModel, value_str};

verus! {

/// The endpoint of a HuggingPlace backend at `base`: the base without
/// trailing slashes, then `/sequence/execute`.
pub open spec fn endpoint_of(base: Seq<char>) -> Seq<char> {
    trim_end_by(base, is_char('/')) + "/sequence/execute"@
}

/// The endpoint of a HuggingPlace backend (see `endpoint_of`).
pub fn endpoint_url(base_url: &str) -> (r: String)
    ensures
        r@ == endpoint_of(base_url@),
{
    let chars = chars_of(base_url);
    let base = trim_end_char(chars.as_slice(), '/');
    let b = string_of(base.as_slice());
    concat2(b.as_str(), "/sequence/execute")
}

/// The text of a HuggingPlace reply: its `output` member where there is one,
/// else its `text` member, taken where it is a string; empty otherwise.
pub open spec fn reply_content(output: Option<ValueModel>, text: Option<ValueModel>) -> Seq<char> {
    let chosen = match output {
        Some(v) => Some(v),
        None => text,
    };
    match chosen {
        Some(v) => match value_str(v) {
            Some(s) => s,
            None => Seq::empty(),
        },
        None => Seq::empty(),
    }
}

/// The model of an optional value.
pub open spec fn opt_value(v: Option<FieldValue>) -> Option<ValueModel> {
    match v {
        Some(x) => Some(x@),
        None => None,
    }
}

/// The text of a HuggingPlace reply (see `reply_content`), given its
/// `output` and `text` members where it has them.
pub fn completion_content(output: Option<FieldValue>, text: Option<FieldValue>) -> (r: String)
    ensures
        r@ == reply_content(opt_value(output), opt_value(text)),
{
    let chosen = match output {
        Some(v) => Some(v),
        None => text,
    };
    match chosen {
        Some(v) => match v.as_str() {
            Some(s) => s.to_string(),
            None => String::new(),
        },
        None => String::new(),
    }
}

/// The token counts a reply reports, each where it is an unsigned integer.
pub struct TokenCounts {
    pub prompt: Option<u64>,
    pub completion: Option<u64>,
    pub total: Option<u64>,
}

/// A count, or 0 where there is none, cut to 32 bits.
pub open spec fn count_u32(c: Option<u64>) -> u32 {
    match c {
        Some(n) => n as u32,
        None => 0u32,
    }
}

/// A count, or 0 where there is none, cut to 32 bits.
fn count_or_zero(c: Option<u64>) -> (r: u32)
    ensures
        r == count_u32(c),
{
    match c {
        Some(n) => {
            #[verifier::truncate]
            let r = n as u32;
            r
        },
        None => 0,
    }
}

/// The usage a HuggingPlace reply reports: none without a `tokens` member;
/// else each count, 0 where missing, cut to 32 bits.
pub fn token_usage(tokens: Option<TokenCounts>) -> (r: Option<Usage>)
    ensures
        match tokens {
            None => r is None,
            Some(t) => r matches Some(u) && u.prompt_tokens == count_u32(t.prompt)
                && u.completion_tokens == count_u32(t.completion) && u.total_tokens == count_u32(t.total),
        },
{
    match tokens {
        None => None,
        Some(t) => Some(Usage {
            prompt_tokens: count_or_zero(t.prompt),
            completion_tokens: count_or_zero(t.completion),
            total_tokens: count_or_zero(t.total),
        }),
    }
}

/// The role an OpenAI-compatible request sends a message as: a developer
/// message goes as a system message, the others as they are.
pub open spec fn request_role_of(role: MessageRole) -> MessageRole {
    match role {
        MessageRole::Developer => MessageRole::System,
        r => r,
    }
}

/// The role an OpenAI-compatible request sends a message as.
pub fn request_role(role: MessageRole) -> (r: MessageRole)
    ensures
        r == request_role_of(role),
{
    match role {
        MessageRole::Developer => MessageRole::System,
        MessageRole::System => MessageRole::System,
        MessageRole::User => MessageRole::User,
        MessageRole::Assistant => MessageRole::Assistant,
    }
}

} // verus!
