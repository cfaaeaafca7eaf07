use arxiv_sniffer::filter::{
    build_dimensions_block, build_json_output_block, read_relevance_dimensions,
    read_relevance_scores, relevance_prompt, render_dimension_lines, render_relevance_template,
    sort_dimension_lines, split_into_chunks, DimensionKey, DimensionLine, DimensionText,
};
use arxiv_sniffer::json::{JsonMember, JsonValue};

fn obj(members: Vec<(&str, JsonValue)>) -> JsonValue {
    JsonValue::Object(
        members
            .into_iter()
            .map(|(k, v)| JsonMember { key: k.to_string(), value: v })
            .collect(),
    )
}

fn s(t: &str) -> JsonValue {
    JsonValue::Str(t.to_string())
}

fn dims() -> Vec<DimensionKey> {
    vec![
        DimensionKey { key: "core".to_string(), name: "Core topic".to_string() },
        DimensionKey { key: "method".to_string(), name: "Method".to_string() },
    ]
}

fn item(score: JsonValue, reason: &str) -> JsonValue {
    obj(vec![("score", score), ("reason", s(reason))])
}

#[test]
fn scores_read_in_dimension_order() {
    let answer = obj(vec![(
        "dimensional_scores",
        obj(vec![("method", item(JsonValue::UInt(3), "so-so")), ("core", item(JsonValue::UInt(10), "spot on"))]),
    )]);
    let scores = read_relevance_scores(&dims(), &answer).unwrap();
    assert_eq!(scores.len(), 2);
    assert_eq!((scores[0].key.as_str(), scores[0].name.as_str(), scores[0].score, scores[0].reason.as_str()), ("core", "Core topic", 10, "spot on"));
    assert_eq!((scores[1].key.as_str(), scores[1].score, scores[1].reason.as_str()), ("method", 3, "so-so"));
}

#[test]
fn scores_missing_object() {
    let err = read_relevance_scores(&dims(), &obj(vec![("dimensional_scores", s("x"))])).unwrap_err();
    assert_eq!(err, "AI response missing object field 'dimensional_scores'");
    let err = read_relevance_scores(&dims(), &JsonValue::Null).unwrap_err();
    assert_eq!(err, "AI response missing object field 'dimensional_scores'");
}

#[test]
fn scores_missing_dimension() {
    let answer = obj(vec![("dimensional_scores", obj(vec![("core", item(JsonValue::UInt(1), "r"))]))]);
    assert_eq!(read_relevance_scores(&dims(), &answer).unwrap_err(), "AI response missing dimension key 'method'");
}

#[test]
fn scores_not_integer() {
    let answer = obj(vec![("dimensional_scores", obj(vec![
        ("core", item(JsonValue::OtherNumber { positive: true }, "r")),
        ("method", item(JsonValue::UInt(1), "r")),
    ]))]);
    assert_eq!(read_relevance_scores(&dims(), &answer).unwrap_err(), "dimension 'core' missing integer field 'score'");
}

#[test]
fn scores_out_of_range() {
    let answer = obj(vec![("dimensional_scores", obj(vec![
        ("core", item(JsonValue::UInt(11), "r")),
        ("method", item(JsonValue::UInt(1), "r")),
    ]))]);
    assert_eq!(read_relevance_scores(&dims(), &answer).unwrap_err(), "dimension 'core' has invalid score 11, expected 0..=10");
}

#[test]
fn scores_missing_reason() {
    let answer = obj(vec![("dimensional_scores", obj(vec![
        ("core", item(JsonValue::UInt(2), "r")),
        ("method", obj(vec![("score", JsonValue::UInt(1)), ("reason", JsonValue::Bool(true))])),
    ]))]);
    assert_eq!(read_relevance_scores(&dims(), &answer).unwrap_err(), "dimension 'method' missing string field 'reason'");
}

#[test]
fn prompt_fills_title_then_abstract() {
    assert_eq!(relevance_prompt("T={title}; A={abstract}", "x", "y"), "T=x; A=y");
    assert_eq!(relevance_prompt("{title}", "has {abstract}", "Z"), "has Z");
}

fn texts() -> Vec<DimensionText> {
    vec![
        DimensionText { key: "core".to_string(), name: "Core".to_string(), description: "d1".to_string() },
        DimensionText { key: "app".to_string(), name: "Application".to_string(), description: "d2".to_string() },
    ]
}

#[test]
fn dimensions_block_numbered() {
    assert_eq!(build_dimensions_block(&texts()), "1. **Core**(core)：d1\n2. **Application**(app)：d2");
    assert_eq!(build_dimensions_block(&Vec::new()), "");
}

#[test]
fn json_output_block_is_pretty_json() {
    let expected = "{\n  \"dimensional_scores\": {\n    \"app\": {\n      \"reason\": \"REASON_FOR_APP\",\n      \"score\": 0\n    },\n    \"core\": {\n      \"reason\": \"REASON_FOR_CORE\",\n      \"score\": 0\n    }\n  }\n}";
    assert_eq!(build_json_output_block(&texts()), expected);
}

#[test]
fn relevance_template_rendered() {
    let t = "Topic: {topic}\n{dimonsion_num} dims:\n{dimonsions}\nAnswer:\n{json_output}\n{title}";
    let r = render_relevance_template(t, "graphs", &texts());
    let expected = format!(
        "Topic: graphs\n2 dims:\n1. **Core**(core)：d1\n2. **Application**(app)：d2\nAnswer:\n{}\n{{title}}",
        build_json_output_block(&texts())
    );
    assert_eq!(r, expected);
}

#[test]
fn chunks_are_balanced_and_ordered() {
    let chunks = split_into_chunks((0..10).collect::<Vec<u32>>(), 4);
    let lens: Vec<usize> = chunks.iter().map(|c| c.len()).collect();
    assert_eq!(lens, vec![3, 3, 2, 2]);
    assert_eq!(chunks.concat(), (0..10).collect::<Vec<u32>>());
    assert_eq!(split_into_chunks(vec![1, 2], 4), vec![vec![1], vec![2]]);
    assert_eq!(split_into_chunks(vec![1, 2, 3], 0), vec![vec![1, 2, 3]]);
    assert!(split_into_chunks(Vec::<u8>::new(), 3).is_empty());
}

fn line(key: &str, score: u8, name: Option<&str>, reason: Option<&str>) -> DimensionLine {
    DimensionLine {
        key: key.to_string(),
        score,
        name: name.map(str::to_string),
        reason: reason.map(str::to_string),
    }
}

#[test]
fn dimension_lines_sorted_by_score_then_key() {
    let sorted = sort_dimension_lines(vec![
        line("b", 5, None, None),
        line("a", 5, None, None),
        line("c", 9, None, None),
        line("d", 0, None, None),
    ]);
    let keys: Vec<&str> = sorted.iter().map(|l| l.key.as_str()).collect();
    assert_eq!(keys, vec!["c", "a", "b", "d"]);
}

#[test]
fn dimension_lines_text() {
    let text = render_dimension_lines(&vec![line("core", 9, Some("Core"), Some("fits")), line("x", 1, None, None)]);
    assert_eq!(text, "- Core (core): 9 / 10\n理由：fits\n\n- x (x): 1 / 10\n理由：\n\n");
}

fn dim(weight: JsonValue, name: Option<&str>, desc: Option<&str>) -> JsonValue {
    let mut m = vec![("weight", weight)];
    if let Some(n) = name {
        m.push(("name", s(n)));
    }
    if let Some(d) = desc {
        m.push(("description", s(d)));
    }
    obj(m)
}

#[test]
fn dimensions_file_read() {
    let doc = obj(vec![("dimensional_scores", obj(vec![
        ("a", dim(JsonValue::OtherNumber { positive: true }, Some("A"), Some("da"))),
        ("b", dim(JsonValue::UInt(1), Some("B"), Some("db"))),
    ]))]);
    let d = read_relevance_dimensions(&doc).unwrap();
    assert_eq!(d.len(), 2);
    assert_eq!((d[0].key.as_str(), d[0].name.as_str(), d[0].description.as_str()), ("a", "A", "da"));
    assert_eq!(d[1].key, "b");
}

#[test]
fn dimensions_file_errors() {
    let wrap = |m: Vec<(&str, JsonValue)>| obj(vec![("dimensional_scores", obj(m))]);
    assert_eq!(read_relevance_dimensions(&JsonValue::Null).unwrap_err(), "missing or invalid 'dimensional_scores' object");
    assert_eq!(read_relevance_dimensions(&wrap(vec![])).unwrap_err(), "relevance dimensions cannot be empty");
    assert_eq!(
        read_relevance_dimensions(&wrap(vec![("a", dim(s("1"), Some("A"), Some("d")))])).unwrap_err(),
        "dimension 'a' missing numeric 'weight'"
    );
    assert_eq!(
        read_relevance_dimensions(&wrap(vec![("a", dim(JsonValue::UInt(1), None, Some("d")))])).unwrap_err(),
        "dimension 'a' missing string 'name'"
    );
    assert_eq!(
        read_relevance_dimensions(&wrap(vec![("a", dim(JsonValue::UInt(1), Some("A"), None))])).unwrap_err(),
        "dimension 'a' missing string 'description' or 'descrtiption'"
    );
    assert_eq!(
        read_relevance_dimensions(&wrap(vec![
            ("a", dim(JsonValue::OtherNumber { positive: false }, Some("A"), Some("d"))),
            ("b", dim(JsonValue::UInt(1), None, None)),
        ])).unwrap_err(),
        "dimension 'a' weight must be positive"
    );
}

#[test]
fn dimensions_file_accepts_misspelled_description() {
    let item = obj(vec![
        ("weight", JsonValue::OtherNumber { positive: true }),
        ("name", s("A")),
        ("descrtiption", s("da")),
    ]);
    let doc = obj(vec![("dimensional_scores", obj(vec![("a", item)]))]);
    let d = read_relevance_dimensions(&doc).unwrap();
    assert_eq!(d.len(), 1);
    assert_eq!((d[0].key.as_str(), d[0].name.as_str(), d[0].description.as_str()), ("a", "A", "da"));
    let both = obj(vec![
        ("weight", JsonValue::UInt(1)),
        ("name", s("A")),
        ("description", s("right")),
        ("descrtiption", s("typo")),
    ]);
    let doc = obj(vec![("dimensional_scores", obj(vec![("a", both)]))]);
    assert_eq!(read_relevance_dimensions(&doc).unwrap()[0].description, "right");
}

#[test]
fn relevance_template_documented_placeholders() {
    let t = "{topic}|{dimension_num}|{dimensions}|{json_outputs}";
    let r = render_relevance_template(t, "graphs", &texts());
    let expected = format!(
        "graphs|2|{}|{}",
        build_dimensions_block(&texts()),
        build_json_output_block(&texts())
    );
    assert_eq!(r, expected);
}
