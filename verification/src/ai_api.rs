//! Data exchanged with the language-model service, and the accounting of its token usage.
use vstd::prelude::*;
use crate::json::{json_as_str, json_first_element, json_get, JsonValue};
use crate::text::{trim, trim_spec};

verus! {

/// This struct represents the token usage metrics of an AI response.
#[derive(Debug, Clone)]
pub struct TokenMetrics {
    pub completion_tokens: usize,
    pub reasoning_tokens: usize,
    pub prompt_cache_hit_tokens: usize,
    pub prompt_cache_miss_tokens: usize,
    pub total_tokens: usize,
}

/// Field-wise sum of two usage records.
pub open spec fn metrics_sum(a: TokenMetrics, b: TokenMetrics) -> TokenMetrics {
    TokenMetrics {
        completion_tokens: (a.completion_tokens + b.completion_tokens) as usize,
        reasoning_tokens: (a.reasoning_tokens + b.reasoning_tokens) as usize,
        prompt_cache_hit_tokens: (a.prompt_cache_hit_tokens + b.prompt_cache_hit_tokens) as usize,
        prompt_cache_miss_tokens: (a.prompt_cache_miss_tokens + b.prompt_cache_miss_tokens) as usize,
        total_tokens: (a.total_tokens + b.total_tokens) as usize,
    }
}

/// The field-wise sum of the two records fits in `usize`.
pub open spec fn metrics_sum_fits(a: TokenMetrics, b: TokenMetrics) -> bool {
    &&& a.completion_tokens + b.completion_tokens <= usize::MAX
    &&& a.reasoning_tokens + b.reasoning_tokens <= usize::MAX
    &&& a.prompt_cache_hit_tokens + b.prompt_cache_hit_tokens <= usize::MAX
    &&& a.prompt_cache_miss_tokens + b.prompt_cache_miss_tokens <= usize::MAX
    &&& a.total_tokens + b.total_tokens <= usize::MAX
}

/// The record with every count zero.
pub open spec fn metrics_zero() -> TokenMetrics {
    TokenMetrics {
        completion_tokens: 0,
        reasoning_tokens: 0,
        prompt_cache_hit_tokens: 0,
        prompt_cache_miss_tokens: 0,
        total_tokens: 0,
    }
}

impl TokenMetrics {
    pub fn new() -> (res: Self)
        ensures
            res == metrics_zero(),
    {
        Self {
            completion_tokens: 0,
            reasoning_tokens: 0,
            prompt_cache_hit_tokens: 0,
            prompt_cache_miss_tokens: 0,
            total_tokens: 0,
        }
    }

    /// Adds two usage records field by field (the `+` of usage records).
    pub fn add(self, rhs: Self) -> (res: Self)
        requires
            metrics_sum_fits(self, rhs),
        ensures
            res == metrics_sum(self, rhs),
    {
        Self {
            completion_tokens: self.completion_tokens + rhs.completion_tokens,
            reasoning_tokens: self.reasoning_tokens + rhs.reasoning_tokens,
            prompt_cache_hit_tokens: self.prompt_cache_hit_tokens + rhs.prompt_cache_hit_tokens,
            prompt_cache_miss_tokens: self.prompt_cache_miss_tokens + rhs.prompt_cache_miss_tokens,
            total_tokens: self.total_tokens + rhs.total_tokens,
        }
    }
}

/// Whether the field-wise sum of two usage records fits in `usize`.
pub fn can_add_metrics(a: &TokenMetrics, b: &TokenMetrics) -> (res: bool)
    ensures
        res == metrics_sum_fits(*a, *b),
{
    a.completion_tokens <= usize::MAX - b.completion_tokens && a.reasoning_tokens <= usize::MAX
        - b.reasoning_tokens && a.prompt_cache_hit_tokens <= usize::MAX - b.prompt_cache_hit_tokens
        && a.prompt_cache_miss_tokens <= usize::MAX - b.prompt_cache_miss_tokens && a.total_tokens
        <= usize::MAX - b.total_tokens
}

/// Adding the empty record changes nothing.
pub proof fn lemma_metrics_zero_is_identity(a: TokenMetrics)
    ensures
        metrics_sum_fits(a, metrics_zero()),
        metrics_sum(a, metrics_zero()) == a,
        metrics_sum(metrics_zero(), a) == a,
{
}

/// The order in which two usage records are added does not matter.
pub proof fn lemma_metrics_sum_commutative(a: TokenMetrics, b: TokenMetrics)
    ensures
        metrics_sum_fits(a, b) == metrics_sum_fits(b, a),
        metrics_sum(a, b) == metrics_sum(b, a),
{
}

/// Usage records can be accumulated in any grouping.
pub proof fn lemma_metrics_sum_associative(a: TokenMetrics, b: TokenMetrics, c: TokenMetrics)
    requires
        metrics_sum_fits(a, b),
        metrics_sum_fits(metrics_sum(a, b), c),
    ensures
        metrics_sum_fits(b, c),
        metrics_sum_fits(a, metrics_sum(b, c)),
        metrics_sum(metrics_sum(a, b), c) == metrics_sum(a, metrics_sum(b, c)),
{
}

/// One message of a chat completion request.
#[derive(Debug, Clone)]
pub struct ChatMessage {
    pub content: String,
    pub role: String,
}

/// The reasoning mode of a chat completion request.
#[derive(Debug, Clone)]
pub struct ThinkingConfig {
    pub thinking_type: String,
}

/// The answer format that a chat completion request asks for.
#[derive(Debug, Clone)]
pub struct ResponseFormat {
    pub response_type: String,
}

/// The messages of a request: the configured system prompt, then the user's question.
pub fn chat_messages(system_prompt: &str, user_question: &str) -> (res: Vec<ChatMessage>)
    ensures
        res@.len() == 2,
        res@[0].content@ == system_prompt@,
        res@[0].role@ == "system"@,
        res@[1].content@ == user_question@,
        res@[1].role@ == "user"@,
{
    let mut v: Vec<ChatMessage> = Vec::new();
    v.push(ChatMessage { content: String::from_str(system_prompt), role: String::from_str("system") });
    v.push(ChatMessage { content: String::from_str(user_question), role: String::from_str("user") });
    v
}

/// The user question sent for a prompt: the prompt without surrounding white space.
pub fn user_question(request_string: &str) -> (res: String)
    ensures
        res@ == trim_spec(request_string@),
{
    trim(request_string)
}

/// The answer format of requests that expect a JSON object.
pub fn json_object_format() -> (res: ResponseFormat)
    ensures
        res.response_type@ == "json_object"@,
{
    ResponseFormat { response_type: String::from_str("json_object") }
}

/// The model named in a request: the configured model, or the name under which the model
/// configuration is registered when the configured model is blank.
pub fn request_model_name(active_name: &str, configured_model: &str) -> (res: String)
    ensures
        trim_spec(configured_model@).len() == 0 ==> res@ == active_name@,
        trim_spec(configured_model@).len() != 0 ==> res@ == configured_model@,
{
    let t = trim(configured_model);
    if t.as_str().is_empty() {
        String::from_str(active_name)
    } else {
        String::from_str(configured_model)
    }
}

/// The assistant's text in a chat completion answer: `choices[0].message.content`.
pub open spec fn assistant_text_spec(response: JsonValue) -> Option<Seq<char>> {
    match json_get(response, "choices"@) {
        Some(choices) => match json_first_element(choices) {
            Some(first) => match json_get(first, "message"@) {
                Some(message) => match json_get(message, "content"@) {
                    Some(content) => json_as_str(content),
                    None => None,
                },
                None => None,
            },
            None => None,
        },
        None => None,
    }
}

/// The message when an answer holds no assistant text.
pub open spec fn missing_content_message() -> Seq<char> {
    "invalid deepseek response: missing choices[0].message.content"@
}

/// Reads the assistant's text, `choices[0].message.content`, from a chat completion answer.
pub fn extract_assistant_text(response: &JsonValue) -> (res: Result<String, String>)
    ensures
        match res {
            Ok(t) => assistant_text_spec(*response) == Some(t@),
            Err(e) => assistant_text_spec(*response) is None && e@ == missing_content_message(),
        },
{
    let content = match response.get("choices") {
        Some(choices) => match choices.first_element() {
            Some(first) => match first.get("message") {
                Some(message) => match message.get("content") {
                    Some(content) => content.as_str(),
                    None => None,
                },
                None => None,
            },
            None => None,
        },
        None => None,
    };
    match content {
        Some(t) => Ok(String::from_str(t)),
        None => Err(
            String::from_str("invalid deepseek response: missing choices[0].message.content"),
        ),
    }
}

} // verus!
