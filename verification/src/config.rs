//! Configuration records and their default values.
use vstd::prelude::*;

verus! {

/// Where the prompt files live.
#[derive(Debug, Clone)]
pub struct PromptsConfig {
    pub dir: String,
}

/// Settings of the crawler.
#[derive(Debug, Clone)]
pub struct CrawlerConfig {
    pub interval_secs: u64,
    pub timeout_secs: u64,
    pub user_agent: Option<String>,
}

impl Default for PromptsConfig {
    fn default() -> (res: Self)
        ensures
            res.dir@ == "prompts"@,
    {
        Self { dir: default_prompts_dir() }
    }
}

pub fn default_crawler_timeout_secs() -> (res: u64)
    ensures
        res == 30,
{
    30
}

pub fn default_prompts_dir() -> (res: String)
    ensures
        res@ == "prompts"@,
{
    String::from_str("prompts")
}

pub fn default_eval_concurrency() -> (res: usize)
    ensures
        res == 4,
{
    4
}

pub fn default_provider() -> (res: String)
    ensures
        res@ == "deepseek"@,
{
    String::from_str("deepseek")
}

pub fn default_deepseek_endpoint() -> (res: String)
    ensures
        res@ == "https://api.deepseek.com/chat/completions"@,
{
    String::from_str("https://api.deepseek.com/chat/completions")
}

pub fn default_system_prompt() -> (res: String)
    ensures
        res@ == "You are a helpful assistant"@,
{
    String::from_str("You are a helpful assistant")
}

pub fn default_timeout_secs() -> (res: u64)
    ensures
        res == 60,
{
    60
}

pub fn default_model_name() -> (res: String)
    ensures
        res@ == "deepseek-chat"@,
{
    String::from_str("deepseek-chat")
}

pub fn default_thinking_type() -> (res: String)
    ensures
        res@ == "disabled"@,
{
    String::from_str("disabled")
}

pub fn default_max_tokens() -> (res: u32)
    ensures
        res == 4096,
{
    4096
}

pub fn default_response_format_type() -> (res: String)
    ensures
        res@ == "text"@,
{
    String::from_str("text")
}

pub fn default_stream() -> (res: bool)
    ensures
        !res,
{
    false
}

pub fn default_tool_choice() -> (res: String)
    ensures
        res@ == "none"@,
{
    String::from_str("none")
}

pub fn default_logprobs() -> (res: bool)
    ensures
        !res,
{
    false
}

} // verus!
