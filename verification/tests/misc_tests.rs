use arxiv_sniffer::ai_api::{
    chat_messages, extract_assistant_text, json_object_format, request_model_name, user_question,
    TokenMetrics,
};
use arxiv_sniffer::arxiv::ArxivPaperEntry;
use arxiv_sniffer::config::{
    default_crawler_timeout_secs, default_deepseek_endpoint, default_eval_concurrency,
    default_logprobs, default_max_tokens, default_model_name, default_prompts_dir,
    default_provider, default_response_format_type, default_stream, default_system_prompt,
    default_thinking_type, default_timeout_secs, default_tool_choice, CrawlerConfig,
    PromptsConfig,
};
use arxiv_sniffer::json::{JsonMember, JsonValue};
use arxiv_sniffer::logger::{format_log_line, LogLevel};

fn metrics(a: usize, b: usize, c: usize, d: usize, e: usize) -> TokenMetrics {
    TokenMetrics {
        completion_tokens: a,
        reasoning_tokens: b,
        prompt_cache_hit_tokens: c,
        prompt_cache_miss_tokens: d,
        total_tokens: e,
    }
}

fn fields(t: &TokenMetrics) -> [usize; 5] {
    [
        t.completion_tokens,
        t.reasoning_tokens,
        t.prompt_cache_hit_tokens,
        t.prompt_cache_miss_tokens,
        t.total_tokens,
    ]
}

#[test]
fn token_metrics_start_at_zero() {
    assert_eq!(fields(&TokenMetrics::new()), [0; 5]);
}

#[test]
fn token_metrics_add_field_by_field() {
    let sum = metrics(1, 2, 3, 4, 10).add(metrics(10, 20, 30, 40, 100));
    assert_eq!(fields(&sum), [11, 22, 33, 44, 110]);
}

#[test]
fn token_metrics_laws_on_examples() {
    let a = metrics(1, 0, 5, 7, 13);
    let b = metrics(2, 3, 0, 1, 6);
    let c = metrics(4, 4, 4, 4, 16);
    assert_eq!(fields(&a.clone().add(TokenMetrics::new())), fields(&a));
    assert_eq!(fields(&a.clone().add(b.clone())), fields(&b.clone().add(a.clone())));
    assert_eq!(
        fields(&a.clone().add(b.clone()).add(c.clone())),
        fields(&a.add(b.add(c)))
    );
}

#[test]
fn paper_urls() {
    let e = ArxivPaperEntry::new(
        "2503.01234".to_string(),
        "T".to_string(),
        vec!["A".to_string()],
        "abs".to_string(),
    );
    assert_eq!(e.get_arxiv_url(), "https://arxiv.org/abs/2503.01234");
    assert_eq!(e.get_pdf_url(), "https://arxiv.org/pdf/2503.01234.pdf");
    assert_eq!(e.get_src_url(), "https://arxiv.org/src/2503.01234");
    assert_eq!(e.id, "2503.01234");
    assert_eq!(e.authors, vec!["A".to_string()]);
}

#[test]
fn log_line_format() {
    let line = format_log_line(LogLevel::Warn, "2026-03-06T08:00:00.000+08:00", "hello");
    assert_eq!(line, "\x1b[33m[WARN]\x1b[0m2026-03-06T08:00:00.000+08:00 - hello");
    assert_eq!(LogLevel::Debug.label(), "DEBUG");
    assert_eq!(LogLevel::Info.ansi_color(), "32");
    assert_eq!(LogLevel::Error.ansi_color(), "31");
    assert!(LogLevel::Error.writes_to_stderr());
    assert!(!LogLevel::Info.writes_to_stderr());
}

#[test]
fn config_defaults() {
    assert_eq!(PromptsConfig::default().dir, "prompts");
    assert_eq!(default_prompts_dir(), "prompts");
    assert_eq!(default_crawler_timeout_secs(), 30);
    assert_eq!(default_eval_concurrency(), 4);
    assert_eq!(default_provider(), "deepseek");
    assert_eq!(default_deepseek_endpoint(), "https://api.deepseek.com/chat/completions");
    assert_eq!(default_system_prompt(), "You are a helpful assistant");
    assert_eq!(default_timeout_secs(), 60);
    assert_eq!(default_model_name(), "deepseek-chat");
    assert_eq!(default_thinking_type(), "disabled");
    assert_eq!(default_max_tokens(), 4096);
    assert_eq!(default_response_format_type(), "text");
    assert!(!default_stream());
    assert_eq!(default_tool_choice(), "none");
    assert!(!default_logprobs());
    let c = CrawlerConfig { interval_secs: 10, timeout_secs: 120, user_agent: None };
    assert_eq!(c.interval_secs, 10);
}

#[test]
fn chat_request_parts() {
    let m = chat_messages("You are a helpful assistant", "question");
    assert_eq!(m.len(), 2);
    assert_eq!((m[0].role.as_str(), m[0].content.as_str()), ("system", "You are a helpful assistant"));
    assert_eq!((m[1].role.as_str(), m[1].content.as_str()), ("user", "question"));
    assert_eq!(user_question("  what is new?\n"), "what is new?");
    assert_eq!(json_object_format().response_type, "json_object");
}

#[test]
fn model_name_falls_back_when_blank() {
    assert_eq!(request_model_name("deepseek-reasoner", "  "), "deepseek-reasoner");
    assert_eq!(request_model_name("deepseek-reasoner", ""), "deepseek-reasoner");
    assert_eq!(request_model_name("x", "deepseek-chat"), "deepseek-chat");
}

fn obj(members: Vec<(&str, JsonValue)>) -> JsonValue {
    JsonValue::Object(
        members
            .into_iter()
            .map(|(k, v)| JsonMember { key: k.to_string(), value: v })
            .collect(),
    )
}

#[test]
fn assistant_text_found() {
    let answer = obj(vec![(
        "choices",
        JsonValue::Array(vec![obj(vec![(
            "message",
            obj(vec![("content", JsonValue::Str("{\"a\":1}".to_string()))]),
        )])]),
    )]);
    assert_eq!(extract_assistant_text(&answer).unwrap(), "{\"a\":1}");
}

#[test]
fn assistant_text_missing() {
    let msg = "invalid deepseek response: missing choices[0].message.content";
    assert_eq!(extract_assistant_text(&JsonValue::Null).unwrap_err(), msg);
    let empty = obj(vec![("choices", JsonValue::Array(vec![]))]);
    assert_eq!(extract_assistant_text(&empty).unwrap_err(), msg);
    let not_text = obj(vec![(
        "choices",
        JsonValue::Array(vec![obj(vec![("message", obj(vec![("content", JsonValue::UInt(3))]))])]),
    )]);
    assert_eq!(extract_assistant_text(&not_text).unwrap_err(), msg);
}
