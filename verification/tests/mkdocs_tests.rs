use arxiv_sniffer::ai_api::TokenMetrics;
use arxiv_sniffer::arxiv::ArxivPaperEntry;
use arxiv_sniffer::date::day_texts;
use arxiv_sniffer::mkdocs::{
    format_duration_hms, mkdocs_topic_summary_page_path, nav_entry_path, nav_update_action,
    render_metrics, render_mkdocs_page, render_paper_section, sanitize_topic_name_for_path,
    topic_folder_path, update_mkdocs_yml, update_nav_document, NavAction, NavSlot, PageTemplates, RankedPaper,
};
use arxiv_sniffer::yaml::{YamlEntry, YamlNode};

#[test]
fn sanitize_examples() {
    assert_eq!(sanitize_topic_name_for_path("Agentic ai"), "Agentic_ai");
    assert_eq!(sanitize_topic_name_for_path("RLHF/RLVF"), "RLHFRLVF");
    assert_eq!(sanitize_topic_name_for_path("  a..b  "), "ab");
    assert_eq!(sanitize_topic_name_for_path("a \t b"), "a_b");
    assert_eq!(sanitize_topic_name_for_path("__x__y__"), "x_y");
    assert_eq!(sanitize_topic_name_for_path("?./\\"), "topic");
    assert_eq!(sanitize_topic_name_for_path(""), "topic");
    assert_eq!(sanitize_topic_name_for_path("智能 体"), "智能_体");
}

#[test]
fn sanitize_is_idempotent_on_examples() {
    for name in ["Agentic ai", "  a..b  ", "?./\\", "x _ y", "RLHF/RLVF"] {
        let once = sanitize_topic_name_for_path(name);
        assert_eq!(sanitize_topic_name_for_path(&once), once);
        assert!(!once.is_empty() && !once.starts_with('_') && !once.ends_with('_'));
        assert!(!once.contains("__") && !once.contains('/') && !once.contains('.'));
    }
}

#[test]
fn duration_text() {
    assert_eq!(format_duration_hms(0), "0s");
    assert_eq!(format_duration_hms(59), "59s");
    assert_eq!(format_duration_hms(61), "1m 1s");
    assert_eq!(format_duration_hms(3600), "1h 0m 0s");
    assert_eq!(format_duration_hms(3661), "1h 1m 1s");
    assert_eq!(format_duration_hms(90061), "25h 1m 1s");
}

fn usage() -> TokenMetrics {
    TokenMetrics {
        completion_tokens: 5,
        reasoning_tokens: 4,
        prompt_cache_hit_tokens: 3,
        prompt_cache_miss_tokens: 2,
        total_tokens: 14,
    }
}

#[test]
fn metrics_section() {
    let t = "{AI_name}|{prompt_cache_miss_tokens}|{prompt_cache_hit_tokens}|{completion_tokens}|{reasoning_tokens}|{total_tokens}|{time}";
    assert_eq!(render_metrics(t, "deepseek-chat", &usage(), 125), "deepseek-chat|2|3|5|4|14|2m 5s");
}

fn entry() -> ArxivPaperEntry {
    ArxivPaperEntry::new("2503.1".to_string(), "Title".to_string(), vec![], "Abs".to_string())
}

#[test]
fn paper_section() {
    let t = "# {paper_title}\n{topic_relevance}\n{AI_name}\n{abstract}\n{arXiv_link} {pdf_link} {src_link}";
    assert_eq!(
        render_paper_section(t, &entry(), "rel", "m"),
        "# Title\nrel\nm\nAbs\nhttps://arxiv.org/abs/2503.1 https://arxiv.org/pdf/2503.1.pdf https://arxiv.org/src/2503.1"
    );
}

#[test]
fn topic_page() {
    let templates = PageTemplates {
        page: "{date} {topic} {result_len}\n{papers}\n{metrics}\n{yesterday_link} {tomorrow_link}".to_string(),
        paper: "[{paper_title}]".to_string(),
        metrics: "{total_tokens} in {time}".to_string(),
    };
    let papers = vec![
        RankedPaper { entry: entry(), relevance_text: String::new() },
        RankedPaper { entry: entry(), relevance_text: String::new() },
    ];
    let days = day_texts(739_681).unwrap();
    let page = render_mkdocs_page(&templates, &papers, "graphs", &days, "m", &usage(), 5);
    assert_eq!(page, "2026-03-06 graphs 2\n[Title]\n\n[Title]\n14 in 5s\n./2026-03-05.md ./2026-03-07.md");
}

#[test]
fn page_paths() {
    assert_eq!(topic_folder_path("Agentic ai"), "./mkdocs/docs/Agentic_ai");
    assert_eq!(nav_entry_path("Agentic ai", "2026-03-06"), "Agentic_ai/2026-03-06.md");
    assert_eq!(mkdocs_topic_summary_page_path("Agentic ai", "2026-03-06"), "./mkdocs/docs/Agentic_ai/2026-03-06.md");
}

#[test]
fn nav_updates() {
    let day = 739_681; // 2026-03-06
    let slots = vec![NavSlot::NotMapping, NavSlot::WithoutTopic];
    assert_eq!(nav_update_action(&slots, day), NavAction::Append);
    let slots = vec![NavSlot::WithoutTopic, NavSlot::TopicPath("t/2026-03-05.md".to_string())];
    assert_eq!(nav_update_action(&slots, day), NavAction::Replace(1));
    let slots = vec![NavSlot::TopicPath("t/2026-03-06.md".to_string())];
    assert_eq!(nav_update_action(&slots, day), NavAction::Keep(0));
    let slots = vec![NavSlot::TopicPath("t/2026-04-01.md".to_string()), NavSlot::TopicNotText];
    assert_eq!(nav_update_action(&slots, day), NavAction::Keep(0));
    let slots = vec![NavSlot::TopicNotText, NavSlot::TopicPath("t/2027-01-01.md".to_string())];
    assert_eq!(nav_update_action(&slots, day), NavAction::Replace(0));
    let slots = vec![NavSlot::TopicPath("t/readme.md".to_string())];
    assert_eq!(nav_update_action(&slots, day), NavAction::Replace(0));
}

fn ys(t: &str) -> YamlNode {
    YamlNode::Str(t.to_string())
}

fn ymap(entries: Vec<(YamlNode, YamlNode)>) -> YamlNode {
    YamlNode::Mapping(entries.into_iter().map(|(key, value)| YamlEntry { key, value }).collect())
}

fn shown(n: &YamlNode) -> String {
    format!("{:?}", n)
}

fn nav_doc(items: Vec<YamlNode>) -> YamlNode {
    ymap(vec![(ys("site_name"), ys("digest")), (ys("nav"), YamlNode::Sequence(items))])
}

#[test]
fn nav_document_replaces_older_page() {
    let day = 739_681; // 2026-03-06
    let doc = nav_doc(vec![
        ymap(vec![(ys("Home"), ys("index.md"))]),
        ymap(vec![(ys("Agentic ai"), ys("Agentic_ai/2026-03-05.md"))]),
    ]);
    let updated = update_nav_document(doc, "Agentic ai", day, "2026-03-06").unwrap();
    let expected = nav_doc(vec![
        ymap(vec![(ys("Home"), ys("index.md"))]),
        ymap(vec![(ys("Agentic ai"), ys("Agentic_ai/2026-03-06.md"))]),
    ]);
    assert_eq!(shown(&updated), shown(&expected));
    let again = update_nav_document(updated, "Agentic ai", day, "2026-03-06").unwrap();
    assert_eq!(shown(&again), shown(&expected));
}

#[test]
fn nav_document_keeps_later_page_and_appends_new_topic() {
    let day = 739_681;
    let doc = nav_doc(vec![ymap(vec![(ys("A"), ys("A/2027-01-01.md"))])]);
    let updated = update_nav_document(doc, "A", day, "2026-03-06").unwrap();
    assert_eq!(shown(&updated), shown(&nav_doc(vec![ymap(vec![(ys("A"), ys("A/2027-01-01.md"))])])));
    let updated = update_nav_document(updated, "B c", day, "2026-03-06").unwrap();
    let expected = nav_doc(vec![
        ymap(vec![(ys("A"), ys("A/2027-01-01.md"))]),
        ymap(vec![(ys("B c"), ys("B_c/2026-03-06.md"))]),
    ]);
    assert_eq!(shown(&updated), shown(&expected));
}

#[test]
fn nav_document_creates_nav_under_tags() {
    let day = 739_681;
    let tag = serde_yaml::value::Tag::new("custom");
    let doc = YamlNode::Tagged(tag.clone(), Box::new(ymap(vec![(ys("site_name"), ys("digest"))])));
    let updated = update_nav_document(doc, "T", day, "2026-03-06").unwrap();
    let expected = YamlNode::Tagged(
        tag,
        Box::new(ymap(vec![
            (ys("site_name"), ys("digest")),
            (ys("nav"), YamlNode::Sequence(vec![ymap(vec![(ys("T"), ys("T/2026-03-06.md"))])])),
        ])),
    );
    assert_eq!(shown(&updated), shown(&expected));
}

#[test]
fn nav_document_errors() {
    let day = 739_681;
    assert_eq!(update_nav_document(ys("x"), "T", day, "2026-03-06").unwrap_err(), "mkdocs.yml root must be a mapping");
    let doc = ymap(vec![(ys("nav"), ys("not a list"))]);
    assert_eq!(update_nav_document(doc, "T", day, "2026-03-06").unwrap_err(), "mkdocs.yml field 'nav' must be a sequence");
}

#[test]
fn mkdocs_yml_text_updated() {
    let day = 739_681; // 2026-03-06
    let raw = "site_name: digest\nnav:\n- Home: index.md\n- Agentic ai: Agentic_ai/2026-03-05.md\ntheme:\n  name: material\n";
    let out = update_mkdocs_yml(raw, "./mkdocs/mkdocs.yml", "Agentic ai", day).unwrap().unwrap();
    let v: serde_yaml::Value = serde_yaml::from_str(&out).unwrap();
    assert_eq!(v["nav"][1]["Agentic ai"].as_str(), Some("Agentic_ai/2026-03-06.md"));
    assert_eq!(v["nav"][0]["Home"].as_str(), Some("index.md"));
    assert_eq!(v["theme"]["name"].as_str(), Some("material"));
    assert_eq!(v["nav"].as_sequence().unwrap().len(), 2);
    let again = update_mkdocs_yml(&out, "./mkdocs/mkdocs.yml", "Agentic ai", day).unwrap().unwrap();
    assert_eq!(again, out);
    let added = update_mkdocs_yml("site_name: x\n", "p.yml", "New topic", day).unwrap().unwrap();
    let v: serde_yaml::Value = serde_yaml::from_str(&added).unwrap();
    assert_eq!(v["nav"][0]["New topic"].as_str(), Some("New_topic/2026-03-06.md"));
}

#[test]
fn mkdocs_yml_text_errors() {
    let day = 739_681;
    let err = update_mkdocs_yml("a: [1, 2", "p.yml", "T", day).unwrap().unwrap_err();
    let reason = serde_yaml::from_str::<serde_yaml::Value>("a: [1, 2").unwrap_err().to_string();
    assert_eq!(err, format!("parse mkdocs.yml failed (path='p.yml'): {}", reason));
    assert_eq!(update_mkdocs_yml("- a\n- b\n", "p.yml", "T", day).unwrap().unwrap_err(), "mkdocs.yml root must be a mapping");
    assert_eq!(update_mkdocs_yml("nav: x\n", "p.yml", "T", day).unwrap().unwrap_err(), "mkdocs.yml field 'nav' must be a sequence");
    assert!(update_mkdocs_yml("a: 1\n", "p.yml", "T", i32::MAX).is_none());
}
