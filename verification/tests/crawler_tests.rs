use arxiv_sniffer::crawler::{
    catchup_url, extract_arxiv_id_from_href, extract_entries_from_html,
    extract_entries_from_listing, extract_plain_text_abstract, strip_descriptor_prefix,
    throttle_wait, ArticleListing,
};
use arxiv_sniffer::date::{
    day_text, day_texts, extract_date_from_nav_path, format_catchup_date, parse_catchup_date,
};

#[test]
fn arxiv_id_from_abstract_link() {
    assert_eq!(extract_arxiv_id_from_href("/abs/2503.01234").as_deref(), Some("2503.01234"));
    assert_eq!(
        extract_arxiv_id_from_href("https://arxiv.org/abs/ 2503.01234v2 ").as_deref(),
        Some("2503.01234v2")
    );
    assert_eq!(extract_arxiv_id_from_href("/abs/a/abs/b").as_deref(), Some("a/abs/b"));
    assert_eq!(extract_arxiv_id_from_href("/abs/   "), None);
    assert_eq!(extract_arxiv_id_from_href("/pdf/2503.01234"), None);
}

#[test]
fn descriptor_prefix_removed() {
    assert_eq!(strip_descriptor_prefix("Title: A study", "Title:"), "A study");
    assert_eq!(strip_descriptor_prefix("A study", "Title:"), "A study");
    assert_eq!(strip_descriptor_prefix("Title:", "Title:"), "");
}

type Element = (String, Option<String>);
type NodeData = (Option<String>, Option<Element>);

fn elem(name: &str, attr: Option<&str>) -> Element {
    (name.to_string(), attr.map(str::to_string))
}

fn el(name: &str, attr: Option<&str>) -> NodeData {
    (None, Some(elem(name, attr)))
}

fn tx(t: &str) -> NodeData {
    (Some(t.to_string()), None)
}

fn other() -> NodeData {
    (None, None)
}

fn child(t: Option<&str>) -> Option<String> {
    t.map(str::to_string)
}

/// A paragraph as parallel lists: each node with its ancestors and children.
fn paragraph(
    items: Vec<(NodeData, Vec<Option<Element>>, Vec<Option<String>>)>,
) -> (Vec<NodeData>, Vec<Vec<Option<Element>>>, Vec<Vec<Option<String>>>) {
    let mut nodes = Vec::new();
    let mut ancestors = Vec::new();
    let mut children = Vec::new();
    for (n, a, c) in items {
        nodes.push(n);
        ancestors.push(a);
        children.push(c);
    }
    (nodes, ancestors, children)
}

#[test]
fn abstract_with_mathjax() {
    let p = Some(elem("p", Some("mathjax")));
    let (n, a, c) = paragraph(vec![
        (el("p", None), vec![None], vec![child(Some(" We study"))]),
        (tx(" We study"), vec![p.clone(), None], vec![]),
        (el("span", None), vec![p.clone()], vec![]),
        (tx("x2"), vec![Some(elem("span", Some("MathJax foo"))), p.clone()], vec![]),
        (tx("x^2"), vec![Some(elem("span", Some("MathJax_Preview"))), p.clone()], vec![]),
        (el("script", Some("math/tex")), vec![p.clone()], vec![child(Some("  x^2 ")), None]),
        (tx("  x^2 "), vec![Some(elem("script", None)), p.clone()], vec![]),
        (tx(" in  graphs.\n"), vec![p.clone()], vec![]),
        (other(), vec![p.clone()], vec![]),
    ]);
    assert_eq!(extract_plain_text_abstract(&n, &a, &c), "We study $x^2$ in graphs.");
}

#[test]
fn abstract_tex_after_space_and_empty_tex() {
    let (n, a, c) = paragraph(vec![
        (tx("a "), vec![], vec![]),
        (el("script", Some("math/tex")), vec![], vec![child(Some("y"))]),
        (el("script", Some("math/tex")), vec![], vec![child(Some("   "))]),
        (el("script", Some("text/javascript")), vec![], vec![child(Some("z"))]),
        (tx("b"), vec![Some(elem("span", Some("MathJaxX")))], vec![]),
    ]);
    assert_eq!(extract_plain_text_abstract(&n, &a, &c), "a $y$ b");
    // Missing ancestor and child lists count as none.
    assert_eq!(extract_plain_text_abstract(&vec![tx(" x ")], &vec![], &vec![]), "x");
}

fn strs(v: Vec<&str>) -> Vec<String> {
    v.into_iter().map(str::to_string).collect()
}

#[test]
fn entries_from_listing() {
    let (n, a, c) = paragraph(vec![(tx(" An  abstract. "), vec![], vec![])]);
    let listing = ArticleListing {
        dt_abstract_hrefs: vec![
            vec![None, Some("/pdf/x".to_string()), Some("/abs/2503.00001".to_string())],
            vec![],
            vec![Some("/abs/2503.00003".to_string())],
            vec![Some("/abs/2503.00004".to_string())],
        ],
        dd_titles: vec![Some(strs(vec!["\n Title:", "  Graph   Learning "])), Some(strs(vec!["Title: No id"])), None],
        dd_authors: vec![
            vec![strs(vec!["Ada", " Lovelace"]), strs(vec!["  "]), strs(vec!["Alan\nTuring"])],
            vec![],
            vec![strs(vec!["X"])],
        ],
        dd_abstract_nodes: vec![Some(n), None, None],
        dd_abstract_ancestors: vec![Some(a), None, None],
        dd_abstract_children: vec![Some(c), None, None],
    };
    let entries = extract_entries_from_listing(&Some(listing));
    assert_eq!(entries.len(), 1);
    assert_eq!(entries[0].id, "2503.00001");
    assert_eq!(entries[0].title, "Graph Learning");
    assert_eq!(entries[0].authors, vec!["Ada Lovelace".to_string(), "Alan Turing".to_string()]);
    assert_eq!(entries[0].abstract_text, "An abstract.");
    assert!(extract_entries_from_listing(&None).is_empty());
}

#[test]
fn entry_without_abstract_gets_empty_text() {
    let listing = ArticleListing {
        dt_abstract_hrefs: vec![vec![Some("/abs/1".to_string())]],
        dd_titles: vec![Some(strs(vec!["Title: T"]))],
        dd_authors: vec![vec![]],
        dd_abstract_nodes: vec![None],
        dd_abstract_ancestors: vec![None],
        dd_abstract_children: vec![None],
    };
    let entries = extract_entries_from_listing(&Some(listing));
    assert_eq!(entries.len(), 1);
    assert_eq!(entries[0].abstract_text, "");
    assert!(entries[0].authors.is_empty());
}

const PAGE: &str = r#"<html><body><h3>New submissions</h3>
<dl id="articles">
<dt><a href="/abs/2503.00001" title="Abstract" id="2503.00001">arXiv:2503.00001</a>
 [<a href="/pdf/2503.00001" title="Download PDF">pdf</a>]</dt>
<dd><div class="meta">
<div class="list-title mathjax"><span class="descriptor">Title:</span>
  Graph   Learning with <span class="MathJax">x</span>Care
</div>
<div class="list-authors"><a href="/a/lovelace_a_1">Ada Lovelace</a>, <a href="/a/turing_a_1">Alan
 Turing</a></div>
<p class="mathjax">We study <span class="MathJax_Preview">x^2</span><span class="MathJax">x2</span><script type="math/tex"> x^2 </script> in  graphs.
</p>
</div></dd>
<dt><a title="Abstract">no link</a></dt>
<dd><div class="list-title">Title: Missing id</div></dd>
</dl></body></html>"#;

#[test]
fn entries_from_raw_page() {
    let entries = extract_entries_from_html(PAGE);
    assert_eq!(entries.len(), 1);
    assert_eq!(entries[0].id, "2503.00001");
    assert_eq!(entries[0].title, "Graph Learning with x Care");
    assert_eq!(entries[0].authors, vec!["Ada Lovelace".to_string(), "Alan Turing".to_string()]);
    assert_eq!(entries[0].abstract_text, "We study $x^2$ in graphs.");
    assert!(extract_entries_from_html("<html><body><p>no list</p></body></html>").is_empty());
    assert!(extract_entries_from_html("").is_empty());
}

#[test]
fn throttle_waits_for_the_rest_of_the_interval() {
    assert_eq!(throttle_wait(None, 10_000), 0);
    assert_eq!(throttle_wait(Some(3_000), 10_000), 7_000);
    assert_eq!(throttle_wait(Some(10_000), 10_000), 0);
    assert_eq!(throttle_wait(Some(12_000), 10_000), 0);
}

#[test]
fn catchup_address() {
    assert_eq!(
        catchup_url("CS", "2026-03-06"),
        "https://arxiv.org/catchup/cs/2026-03-06?abs=True"
    );
    assert_eq!(
        catchup_url("math", "+12345-01-01 é"),
        "https://arxiv.org/catchup/math/%2B12345-01-01%20%C3%A9?abs=True"
    );
}

#[test]
fn day_numbers_and_texts() {
    assert_eq!(day_text(719_163).as_deref(), Some("1970-01-01"));
    assert_eq!(day_text(1).as_deref(), Some("0001-01-01"));
    assert_eq!(day_text(100_000_000), None);
    let t = day_texts(719_163).unwrap();
    assert_eq!((t.yesterday.as_str(), t.date.as_str(), t.tomorrow.as_str()), ("1969-12-31", "1970-01-01", "1970-01-02"));
    assert!(day_texts(i32::MAX).is_none());
}

#[test]
fn catchup_date_of_timestamps() {
    assert_eq!(format_catchup_date(0).as_deref(), Some("1970-01-01"));
    assert_eq!(format_catchup_date(-1).as_deref(), Some("1969-12-31"));
    assert_eq!(format_catchup_date(1_772_755_200).as_deref(), Some("2026-03-06"));
    assert_eq!(format_catchup_date(i64::MAX), None);
}

#[test]
fn catchup_date_parsing() {
    let d = parse_catchup_date("2026-03-06").unwrap();
    assert_eq!(day_text(d).as_deref(), Some("2026-03-06"));
    let err = parse_catchup_date("06/03/2026").unwrap_err();
    assert!(err.starts_with("invalid format, expected YYYY-MM-DD: "));
    assert!(err.len() > "invalid format, expected YYYY-MM-DD: ".len());
    let reason = chrono::NaiveDate::parse_from_str("06/03/2026", "%Y-%m-%d").unwrap_err().to_string();
    assert_eq!(err, format!("invalid format, expected YYYY-MM-DD: {}", reason));
}

#[test]
fn nav_path_dates() {
    let d = extract_date_from_nav_path("Agentic_ai/2026-03-06.md").unwrap();
    assert_eq!(day_text(d).as_deref(), Some("2026-03-06"));
    assert_eq!(extract_date_from_nav_path("Agentic_ai/index.md"), None);
    assert_eq!(extract_date_from_nav_path(""), None);
}
