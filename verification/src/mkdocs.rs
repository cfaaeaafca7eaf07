//! Markdown page rendering for the topic pages, and the path rules of the page tree.
use vstd::prelude::*;
use crate::ai_api::TokenMetrics;
use crate::arxiv::{arxiv_abs_url, arxiv_pdf_url, arxiv_src_url, ArxivPaperEntry};
use crate::date::{
    chrono_date_text, chrono_parse_date, day_text, extract_date_from_nav_path, is_date_text,
    is_md_file_path, lemma_date_text_is_plain_stem, nav_path_day, std_file_stem, DayTexts,
};
use crate::yaml::{
    entries_view, find_key, is_first_key, items_view, key_position, lemma_first_key_unique,
    lemma_key_position, lemma_key_position_found, lemma_key_position_same_keys, lemma_retag_retag,
    lemma_untag_retag, parse_yaml, print_yaml, retag_view, untag_ref, untag_view, yaml_parse,
    yaml_text, yaml_view, YamlEntry, YamlNode, YamlView,
};
use crate::text::{
    decimal_spec, decimal_string, replace, replace_spec,
    chars_of, drop_leading, drop_trailing, is_white_space, is_whitespace_char, lemma_trim_shape,
    string_of, trim_char, trim_char_spec, trim_pred,
};

verus! {

/// Characters that are removed from topic names because they are dangerous in paths.
pub open spec fn is_path_unsafe(c: char) -> bool {
    c == '.' || c == '?' || c == '/' || c == '\\'
}

/// First step of sanitizing: white space becomes `_`, path characters are dropped.
pub open spec fn map_topic_chars(s: Seq<char>) -> Seq<char>
    decreases s.len(),
{
    if s.len() == 0 {
        s
    } else {
        let p = map_topic_chars(s.drop_last());
        let c = s.last();
        if is_white_space(c) {
            p.push('_')
        } else if is_path_unsafe(c) {
            p
        } else {
            p.push(c)
        }
    }
}

/// Second step: every run of `_` becomes a single `_`.
pub open spec fn collapse_underscores(s: Seq<char>) -> Seq<char>
    decreases s.len(),
{
    if s.len() == 0 {
        s
    } else if s.last() == '_' && s.len() >= 2 && s[s.len() - 2] == '_' {
        collapse_underscores(s.drop_last())
    } else {
        collapse_underscores(s.drop_last()).push(s.last())
    }
}

/// The folder name used when sanitizing leaves nothing.
pub open spec fn fallback_topic_folder() -> Seq<char> {
    seq!['t', 'o', 'p', 'i', 'c']
}

/// The folder name of a topic: white space replaced by `_`, `.` `?` `/` `\` removed,
/// runs of `_` collapsed, leading and trailing `_` trimmed, and `topic` if nothing is left.
pub open spec fn sanitize_topic_name_spec(name: Seq<char>) -> Seq<char> {
    let t = trim_char_spec(collapse_underscores(map_topic_chars(name)), '_');
    if t.len() == 0 {
        fallback_topic_folder()
    } else {
        t
    }
}

/// Convert topic name to a safe folder name.
///
/// Rules:
/// - Replace whitespace with `_`
/// - Remove potentially dangerous path characters: `.`, `?`, `/`, `\`
/// - Collapse repeated `_`
/// - Trim leading/trailing `_`
pub fn sanitize_topic_name_for_path(topic_name: &str) -> (res: String)
    ensures
        res@ == sanitize_topic_name_spec(topic_name@),
{
    let chars = chars_of(topic_name);
    let n = chars.len();
    let mut out: Vec<char> = Vec::new();
    for i in 0..n
        invariant
            n == chars.len(),
            out@ == map_topic_chars(chars@.take(i as int)),
    {
        assert(chars@.take(i + 1).drop_last() =~= chars@.take(i as int));
        let ch = chars[i];
        if is_whitespace_char(ch) {
            out.push('_');
        } else if ch != '.' && ch != '?' && ch != '/' && ch != '\\' {
            out.push(ch);
        }
    }
    assert(chars@.take(n as int) =~= chars@);
    let m = out.len();
    let mut collapsed: Vec<char> = Vec::new();
    let mut prev_underscore = false;
    for i in 0..m
        invariant
            m == out.len(),
            collapsed@ == collapse_underscores(out@.take(i as int)),
            prev_underscore == (i > 0 && out@[i - 1] == '_'),
    {
        assert(out@.take(i + 1).drop_last() =~= out@.take(i as int));
        let ch = out[i];
        if ch == '_' {
            if !prev_underscore {
                collapsed.push(ch);
            }
            prev_underscore = true;
        } else {
            collapsed.push(ch);
            prev_underscore = false;
        }
    }
    assert(out@.take(m as int) =~= out@);
    let trimmed = trim_char(&collapsed, '_');
    if trimmed.len() == 0 {
        let mut fallback: Vec<char> = Vec::new();
        fallback.push('t');
        fallback.push('o');
        fallback.push('p');
        fallback.push('i');
        fallback.push('c');
        assert(fallback@ =~= fallback_topic_folder());
        string_of(&fallback)
    } else {
        string_of(&trimmed)
    }
}

/// A folder name that is safe to use as one path component: not empty, free of white space
/// and of `.` `?` `/` `\`, without `__`, and neither starting nor ending with `_`.
pub open spec fn is_safe_folder_name(s: Seq<char>) -> bool {
    &&& s.len() > 0
    &&& has_only_plain_chars(s)
    &&& s[0] != '_'
    &&& s.last() != '_'
    &&& has_no_double_underscore(s)
}

/// No character of `s` is white space or a path character.
pub open spec fn has_only_plain_chars(s: Seq<char>) -> bool {
    forall|i: int| 0 <= i < s.len() ==> !is_white_space(#[trigger] s[i]) && !is_path_unsafe(s[i])
}

/// `s` holds no two adjacent underscores.
pub open spec fn has_no_double_underscore(s: Seq<char>) -> bool {
    forall|i: int| 0 <= i < s.len() - 1 ==> !(#[trigger] s[i] == '_' && s[i + 1] == '_')
}

proof fn lemma_map_topic_chars_plain(s: Seq<char>)
    ensures
        has_only_plain_chars(map_topic_chars(s)),
    decreases s.len(),
{
    if s.len() > 0 {
        lemma_map_topic_chars_plain(s.drop_last());
        let p = map_topic_chars(s.drop_last());
        let r = map_topic_chars(s);
        assert forall|i: int| 0 <= i < r.len() implies !is_white_space(#[trigger] r[i])
            && !is_path_unsafe(r[i]) by {
            if i < p.len() {
                assert(r[i] == p[i]);
            }
        }
    }
}

proof fn lemma_collapse_props(s: Seq<char>)
    ensures
        s.len() > 0 ==> collapse_underscores(s).len() > 0 && collapse_underscores(s).last()
            == s.last(),
        has_only_plain_chars(s) ==> has_only_plain_chars(collapse_underscores(s)),
        has_no_double_underscore(collapse_underscores(s)),
    decreases s.len(),
{
    if s.len() > 0 {
        let t = s.drop_last();
        lemma_collapse_props(t);
        let p = collapse_underscores(t);
        let r = collapse_underscores(s);
        if has_only_plain_chars(s) {
            assert forall|i: int| 0 <= i < t.len() implies !is_white_space(#[trigger] t[i])
                && !is_path_unsafe(t[i]) by {
                assert(t[i] == s[i]);
            }
            assert forall|i: int| 0 <= i < r.len() implies !is_white_space(#[trigger] r[i])
                && !is_path_unsafe(r[i]) by {
                if i < p.len() {
                    assert(r[i] == p[i]);
                } else {
                    assert(r[i] == s[s.len() - 1]);
                }
            }
        }
        if !(s.last() == '_' && s.len() >= 2 && s[s.len() - 2] == '_') {
            assert forall|i: int| 0 <= i < r.len() - 1 implies !(#[trigger] r[i] == '_' && r[i
                + 1] == '_') by {
                if i + 1 < p.len() {
                    assert(r[i] == p[i] && r[i + 1] == p[i + 1]);
                } else {
                    assert(i == p.len() - 1);
                    assert(r[i] == p.last());
                    assert(p.last() == t.last());
                }
            }
        }
    }
}

/// The folder name of every topic is a safe path component.
pub proof fn lemma_sanitized_name_is_safe(name: Seq<char>)
    ensures
        is_safe_folder_name(sanitize_topic_name_spec(name)),
{
    let m = map_topic_chars(name);
    lemma_map_topic_chars_plain(name);
    lemma_collapse_props(m);
    let c = collapse_underscores(m);
    let p = trim_pred(false, '_');
    lemma_trim_shape(c, p);
    let t = trim_char_spec(c, '_');
    if t.len() == 0 {
        assert(sanitize_topic_name_spec(name) == fallback_topic_folder());
    } else {
        let a = choose|a: int| 0 <= a && a + t.len() <= c.len() && t == #[trigger] c.subrange(
            a,
            a + t.len(),
        );
        assert forall|i: int| 0 <= i < t.len() implies !is_white_space(#[trigger] t[i])
            && !is_path_unsafe(t[i]) by {
            assert(t[i] == c[a + i]);
        }
        assert forall|i: int| 0 <= i < t.len() - 1 implies !(#[trigger] t[i] == '_' && t[i
            + 1] == '_') by {
            assert(t[i] == c[a + i] && t[i + 1] == c[a + i + 1]);
        }
        assert(!p(t[0]) && !p(t.last()));
    }
}

proof fn lemma_map_topic_chars_plain_id(s: Seq<char>)
    requires
        has_only_plain_chars(s),
    ensures
        map_topic_chars(s) == s,
    decreases s.len(),
{
    if s.len() > 0 {
        let t = s.drop_last();
        assert forall|i: int| 0 <= i < t.len() implies !is_white_space(#[trigger] t[i])
            && !is_path_unsafe(t[i]) by {
            assert(t[i] == s[i]);
        }
        lemma_map_topic_chars_plain_id(t);
        assert(!is_white_space(s[s.len() - 1]));
        assert(t.push(s.last()) =~= s);
    }
}

proof fn lemma_collapse_id(s: Seq<char>)
    requires
        has_no_double_underscore(s),
    ensures
        collapse_underscores(s) == s,
    decreases s.len(),
{
    if s.len() > 0 {
        let t = s.drop_last();
        assert forall|i: int| 0 <= i < t.len() - 1 implies !(#[trigger] t[i] == '_' && t[i
            + 1] == '_') by {
            assert(t[i] == s[i] && t[i + 1] == s[i + 1]);
        }
        lemma_collapse_id(t);
        if s.len() >= 2 {
            assert(!(s[s.len() - 2] == '_' && s[s.len() - 1] == '_'));
        }
        assert(t.push(s.last()) =~= s);
    }
}

/// Sanitizing a folder name that is already safe leaves it unchanged.
pub proof fn lemma_safe_name_is_fixed(s: Seq<char>)
    requires
        is_safe_folder_name(s),
    ensures
        sanitize_topic_name_spec(s) == s,
{
    lemma_map_topic_chars_plain_id(s);
    lemma_collapse_id(s);
    let p = trim_pred(false, '_');
    assert(drop_leading(s, p) == s);
    assert(drop_trailing(s, p) == s);
}

/// Sanitizing is idempotent: the folder name of a folder name is itself.
pub proof fn lemma_sanitize_idempotent(name: Seq<char>)
    ensures
        sanitize_topic_name_spec(sanitize_topic_name_spec(name)) == sanitize_topic_name_spec(name),
{
    lemma_sanitized_name_is_safe(name);
    lemma_safe_name_is_fixed(sanitize_topic_name_spec(name));
}

/// The duration text: `{h}h {m}m {s}s`, `{m}m {s}s` or `{s}s`, leaving out leading zero units.
pub open spec fn duration_hms_spec(total_seconds: nat) -> Seq<char> {
    let hours = total_seconds / 3600;
    let minutes = (total_seconds % 3600) / 60;
    let seconds = total_seconds % 60;
    if hours > 0 {
        decimal_spec(hours) + "h "@ + decimal_spec(minutes) + "m "@ + decimal_spec(seconds) + "s"@
    } else if minutes > 0 {
        decimal_spec(minutes) + "m "@ + decimal_spec(seconds) + "s"@
    } else {
        decimal_spec(seconds) + "s"@
    }
}

/// Formats a duration given in whole seconds as hours, minutes and seconds.
pub fn format_duration_hms(total_seconds: u64) -> (res: String)
    ensures
        res@ == duration_hms_spec(total_seconds as nat),
{
    let hours = total_seconds / 3600;
    let minutes = (total_seconds % 3600) / 60;
    let seconds = total_seconds % 60;
    if hours > 0 {
        let mut out = decimal_string(hours);
        out.append("h ");
        out.append(decimal_string(minutes).as_str());
        out.append("m ");
        out.append(decimal_string(seconds).as_str());
        out.append("s");
        out
    } else if minutes > 0 {
        let mut out = decimal_string(minutes);
        out.append("m ");
        out.append(decimal_string(seconds).as_str());
        out.append("s");
        out
    } else {
        let mut out = decimal_string(seconds);
        out.append("s");
        out
    }
}

/// The metrics section: the metrics template with the model name, the token counts and the
/// run time filled in, in this order.
pub open spec fn metrics_section_spec(
    template: Seq<char>,
    ai_name: Seq<char>,
    t: TokenMetrics,
    total_seconds: nat,
) -> Seq<char> {
    let a = replace_spec(template, "{AI_name}"@, ai_name);
    let b = replace_spec(a, "{prompt_cache_miss_tokens}"@, decimal_spec(t.prompt_cache_miss_tokens as nat));
    let c = replace_spec(b, "{prompt_cache_hit_tokens}"@, decimal_spec(t.prompt_cache_hit_tokens as nat));
    let d = replace_spec(c, "{completion_tokens}"@, decimal_spec(t.completion_tokens as nat));
    let e = replace_spec(d, "{reasoning_tokens}"@, decimal_spec(t.reasoning_tokens as nat));
    let f = replace_spec(e, "{total_tokens}"@, decimal_spec(t.total_tokens as nat));
    replace_spec(f, "{time}"@, duration_hms_spec(total_seconds))
}

/// Build a markdown section from the metrics template.
pub fn render_metrics(
    metrics_template: &str,
    ai_name: &str,
    token_usage: &TokenMetrics,
    total_seconds: u64,
) -> (res: String)
    ensures
        res@ == metrics_section_spec(metrics_template@, ai_name@, *token_usage, total_seconds as nat),
{
    proof {
        reveal_strlit("{AI_name}");
        reveal_strlit("{prompt_cache_miss_tokens}");
        reveal_strlit("{prompt_cache_hit_tokens}");
        reveal_strlit("{completion_tokens}");
        reveal_strlit("{reasoning_tokens}");
        reveal_strlit("{total_tokens}");
        reveal_strlit("{time}");
    }
    let formatted_time = format_duration_hms(total_seconds);
    let a = replace(metrics_template, "{AI_name}", ai_name);
    let b = replace(
        a.as_str(),
        "{prompt_cache_miss_tokens}",
        decimal_string(token_usage.prompt_cache_miss_tokens as u64).as_str(),
    );
    let c = replace(
        b.as_str(),
        "{prompt_cache_hit_tokens}",
        decimal_string(token_usage.prompt_cache_hit_tokens as u64).as_str(),
    );
    let d = replace(
        c.as_str(),
        "{completion_tokens}",
        decimal_string(token_usage.completion_tokens as u64).as_str(),
    );
    let e = replace(
        d.as_str(),
        "{reasoning_tokens}",
        decimal_string(token_usage.reasoning_tokens as u64).as_str(),
    );
    let f = replace(
        e.as_str(),
        "{total_tokens}",
        decimal_string(token_usage.total_tokens as u64).as_str(),
    );
    replace(f.as_str(), "{time}", formatted_time.as_str())
}

/// A selected paper with the text of its relevance evaluation.
pub struct RankedPaper {
    pub entry: ArxivPaperEntry,
    pub relevance_text: String,
}

/// The section of one paper: the paper template with its fields filled in, in this order.
pub open spec fn paper_section_spec(
    template: Seq<char>,
    entry: ArxivPaperEntry,
    relevance_text: Seq<char>,
    ai_name: Seq<char>,
) -> Seq<char> {
    let a = replace_spec(template, "{paper_title}"@, entry.title@);
    let b = replace_spec(a, "{topic_relevance}"@, relevance_text);
    let c = replace_spec(b, "{AI_name}"@, ai_name);
    let d = replace_spec(c, "{abstract}"@, entry.abstract_text@);
    let e = replace_spec(d, "{arXiv_link}"@, arxiv_abs_url(entry.id@));
    let f = replace_spec(e, "{pdf_link}"@, arxiv_pdf_url(entry.id@));
    replace_spec(f, "{src_link}"@, arxiv_src_url(entry.id@))
}

/// Fills the paper template for one paper.
pub fn render_paper_section(
    paper_template: &str,
    entry: &ArxivPaperEntry,
    relevance_text: &str,
    ai_name: &str,
) -> (res: String)
    ensures
        res@ == paper_section_spec(paper_template@, *entry, relevance_text@, ai_name@),
{
    proof {
        reveal_strlit("{paper_title}");
        reveal_strlit("{topic_relevance}");
        reveal_strlit("{AI_name}");
        reveal_strlit("{abstract}");
        reveal_strlit("{arXiv_link}");
        reveal_strlit("{pdf_link}");
        reveal_strlit("{src_link}");
    }
    let a = replace(paper_template, "{paper_title}", entry.title.as_str());
    let b = replace(a.as_str(), "{topic_relevance}", relevance_text);
    let c = replace(b.as_str(), "{AI_name}", ai_name);
    let d = replace(c.as_str(), "{abstract}", entry.abstract_text.as_str());
    let e = replace(d.as_str(), "{arXiv_link}", entry.get_arxiv_url().as_str());
    let f = replace(e.as_str(), "{pdf_link}", entry.get_pdf_url().as_str());
    replace(f.as_str(), "{src_link}", entry.get_src_url().as_str())
}

/// The sections of the first `k` papers, separated by blank lines.
pub open spec fn paper_sections_upto(
    template: Seq<char>,
    papers: Seq<RankedPaper>,
    ai_name: Seq<char>,
    k: int,
) -> Seq<char>
    decreases k,
{
    if k <= 0 {
        Seq::empty()
    } else if k == 1 {
        paper_section_spec(template, papers[0].entry, papers[0].relevance_text@, ai_name)
    } else {
        paper_sections_upto(template, papers, ai_name, k - 1) + "\n\n"@ + paper_section_spec(
            template,
            papers[k - 1].entry,
            papers[k - 1].relevance_text@,
            ai_name,
        )
    }
}

/// The link to the page of a day: `./YYYY-MM-DD.md`.
pub open spec fn day_link(date_text: Seq<char>) -> Seq<char> {
    "./"@ + date_text + ".md"@
}

/// The templates of a topic page.
pub struct PageTemplates {
    pub page: String,
    pub paper: String,
    pub metrics: String,
}

/// A topic page: the page template with the date, topic, number of papers, the paper
/// sections, the metrics section and the links to the neighbouring days filled in.
pub open spec fn topic_page_spec(
    templates: PageTemplates,
    papers: Seq<RankedPaper>,
    topic_description: Seq<char>,
    days: DayTexts,
    ai_name: Seq<char>,
    token_usage: TokenMetrics,
    total_seconds: nat,
) -> Seq<char> {
    let sections = paper_sections_upto(templates.paper@, papers, ai_name, papers.len() as int);
    let metrics = metrics_section_spec(templates.metrics@, ai_name, token_usage, total_seconds);
    let a = replace_spec(templates.page@, "{date}"@, days.date@);
    let b = replace_spec(a, "{topic}"@, topic_description);
    let c = replace_spec(b, "{result_len}"@, decimal_spec(papers.len()));
    let d = replace_spec(c, "{papers}"@, sections);
    let e = replace_spec(d, "{metrics}"@, metrics);
    let f = replace_spec(e, "{yesterday_link}"@, day_link(days.yesterday@));
    replace_spec(f, "{tomorrow_link}"@, day_link(days.tomorrow@))
}

fn link_to_day(date_text: &str) -> (res: String)
    ensures
        res@ == day_link(date_text@),
{
    let mut s = String::from_str("./");
    s.append(date_text);
    s.append(".md");
    s
}

/// Render one topic page from the page, paper and metrics templates. The papers are given in
/// the order in which they are shown (by overall score, highest first).
pub fn render_mkdocs_page(
    templates: &PageTemplates,
    papers: &Vec<RankedPaper>,
    topic_description: &str,
    days: &DayTexts,
    ai_name: &str,
    token_usage: &TokenMetrics,
    total_seconds: u64,
) -> (res: String)
    requires
        papers@.len() < u64::MAX,
    ensures
        res@ == topic_page_spec(
            *templates,
            papers@,
            topic_description@,
            *days,
            ai_name@,
            *token_usage,
            total_seconds as nat,
        ),
{
    proof {
        reveal_strlit("{date}");
        reveal_strlit("{topic}");
        reveal_strlit("{result_len}");
        reveal_strlit("{papers}");
        reveal_strlit("{metrics}");
        reveal_strlit("{yesterday_link}");
        reveal_strlit("{tomorrow_link}");
    }
    let mut sections = String::new();
    let n = papers.len();
    for i in 0..n
        invariant
            n == papers.len(),
            sections@ == paper_sections_upto(templates.paper@, papers@, ai_name@, i as int),
    {
        if i > 0 {
            sections.append("\n\n");
        }
        let p = &papers[i];
        let section = render_paper_section(
            templates.paper.as_str(),
            &p.entry,
            p.relevance_text.as_str(),
            ai_name,
        );
        sections.append(section.as_str());
    }
    let metrics = render_metrics(templates.metrics.as_str(), ai_name, token_usage, total_seconds);
    let count = decimal_string(n as u64);
    let a = replace(templates.page.as_str(), "{date}", days.date.as_str());
    let b = replace(a.as_str(), "{topic}", topic_description);
    let c = replace(b.as_str(), "{result_len}", count.as_str());
    let d = replace(c.as_str(), "{papers}", sections.as_str());
    let e = replace(d.as_str(), "{metrics}", metrics.as_str());
    let f = replace(e.as_str(), "{yesterday_link}", link_to_day(days.yesterday.as_str()).as_str());
    replace(f.as_str(), "{tomorrow_link}", link_to_day(days.tomorrow.as_str()).as_str())
}

/// The folder of a topic's pages: `./mkdocs/docs/{folder}`.
pub open spec fn topic_folder_spec(topic_name: Seq<char>) -> Seq<char> {
    "./mkdocs/docs/"@ + sanitize_topic_name_spec(topic_name)
}

/// The folder that holds the pages of a topic.
pub fn topic_folder_path(topic_name: &str) -> (res: String)
    ensures
        res@ == topic_folder_spec(topic_name@),
{
    let mut s = String::from_str("./mkdocs/docs/");
    s.append(sanitize_topic_name_for_path(topic_name).as_str());
    s
}

/// The navigation entry of a topic page: `{folder}/YYYY-MM-DD.md`.
pub open spec fn nav_entry_spec(topic_name: Seq<char>, date_text: Seq<char>) -> Seq<char> {
    sanitize_topic_name_spec(topic_name) + "/"@ + date_text + ".md"@
}

/// The navigation entry of a topic page.
pub fn nav_entry_path(topic_name: &str, date_text: &str) -> (res: String)
    ensures
        res@ == nav_entry_spec(topic_name@, date_text@),
{
    let mut s = sanitize_topic_name_for_path(topic_name);
    s.append("/");
    s.append(date_text);
    s.append(".md");
    s
}

/// Build the markdown path for one topic summary page:
/// `./mkdocs/docs/{topic_name}/{date}.md`.
pub fn mkdocs_topic_summary_page_path(topic_name: &str, date_text: &str) -> (res: String)
    ensures
        res@ == topic_folder_spec(topic_name@) + "/"@ + date_text@ + ".md"@,
{
    let mut s = topic_folder_path(topic_name);
    s.append("/");
    s.append(date_text);
    s.append(".md");
    s
}

/// What one item of the `nav` list of `mkdocs.yml` holds for a topic.
#[derive(Debug)]
pub enum NavSlot {
    /// The item is not a mapping.
    NotMapping,
    /// The item is a mapping without the topic's name as a key.
    WithoutTopic,
    /// The item maps the topic's name to something other than text.
    TopicNotText,
    /// The item maps the topic's name to this path.
    TopicPath(String),
}

/// How the `nav` list changes for a new page of a topic.
#[derive(Debug, PartialEq, Eq, Structural)]
pub enum NavAction {
    /// Point the topic's item at this index to the new page.
    Replace(usize),
    /// Leave the topic's item at this index: it points to a page of the same or a later day.
    Keep(usize),
    /// Add an item for the topic at the end of the list.
    Append,
}

/// What one item of the `nav` list holds for a topic, as plain values.
pub enum SlotView {
    NotMapping,
    WithoutTopic,
    TopicNotText,
    TopicPath(Seq<char>),
}

/// The plain values of a slot.
pub open spec fn nav_slot_view(s: NavSlot) -> SlotView {
    match s {
        NavSlot::NotMapping => SlotView::NotMapping,
        NavSlot::WithoutTopic => SlotView::WithoutTopic,
        NavSlot::TopicNotText => SlotView::TopicNotText,
        NavSlot::TopicPath(p) => SlotView::TopicPath(p@),
    }
}

/// The plain values of slots.
pub open spec fn nav_slots_view(slots: Seq<NavSlot>) -> Seq<SlotView> {
    slots.map_values(|s: NavSlot| nav_slot_view(s))
}

/// The item holds the topic.
pub open spec fn slot_has_topic(s: SlotView) -> bool {
    s is TopicNotText || s is TopicPath
}

/// Item `i` is the first that holds the topic.
pub open spec fn is_first_topic_slot(slots: Seq<SlotView>, i: int) -> bool {
    &&& 0 <= i < slots.len()
    &&& slot_has_topic(slots[i])
    &&& forall|j: int| 0 <= j < i ==> !slot_has_topic(#[trigger] slots[j])
}

/// The change that the topic's item at `i` undergoes for a page of `day`: it is replaced
/// unless it points to a page whose day can be read and is not earlier than `day`.
pub open spec fn nav_item_action(s: SlotView, i: usize, day: i32) -> NavAction {
    match s {
        SlotView::TopicPath(p) => match nav_path_day(p) {
            Some(current) => if day > current {
                NavAction::Replace(i)
            } else {
                NavAction::Keep(i)
            },
            None => NavAction::Replace(i),
        },
        _ => NavAction::Replace(i),
    }
}

/// The position of the first item that holds the topic.
pub open spec fn first_topic_index(slots: Seq<SlotView>) -> int {
    choose|i: int| is_first_topic_slot(slots, i)
}

/// The change of the `nav` list for a page of `day`: the first item that holds the topic is
/// updated, and an item is appended when none holds it.
pub open spec fn nav_update_spec(slots: Seq<SlotView>, day: i32) -> NavAction {
    if exists|i: int| 0 <= i < slots.len() && slot_has_topic(#[trigger] slots[i]) {
        let i = first_topic_index(slots);
        nav_item_action(slots[i], i as usize, day)
    } else {
        NavAction::Append
    }
}

proof fn lemma_first_topic_slot(slots: Seq<SlotView>, i: int)
    requires
        0 <= i < slots.len(),
        slot_has_topic(slots[i]),
    ensures
        exists|k: int| is_first_topic_slot(slots, k),
    decreases i,
{
    if exists|j: int| 0 <= j < i && slot_has_topic(#[trigger] slots[j]) {
        let j = choose|j: int| 0 <= j < i && slot_has_topic(#[trigger] slots[j]);
        lemma_first_topic_slot(slots, j);
    } else {
        assert(is_first_topic_slot(slots, i));
    }
}

/// The action on the `nav` list is that of the first item holding the topic.
proof fn lemma_nav_update_first(slots: Seq<SlotView>, i: int, day: i32)
    requires
        is_first_topic_slot(slots, i),
    ensures
        nav_update_spec(slots, day) == nav_item_action(slots[i], i as usize, day),
{
    lemma_first_topic_slot(slots, i);
    let k = choose|k: int| is_first_topic_slot(slots, k);
    if k < i {
        assert(!slot_has_topic(slots[k]));
    }
    if k > i {
        assert(!slot_has_topic(slots[i]));
    }
}

/// Decides how the `nav` list of `mkdocs.yml` changes for a new page of a topic.
pub fn nav_update_action(slots: &Vec<NavSlot>, day: i32) -> (res: NavAction)
    ensures
        res == nav_update_spec(nav_slots_view(slots@), day),
{
    let ghost sv = nav_slots_view(slots@);
    let n = slots.len();
    for i in 0..n
        invariant
            n == slots.len(),
            sv == nav_slots_view(slots@),
            forall|j: int| 0 <= j < i ==> !slot_has_topic(#[trigger] sv[j]),
    {
        let action = match &slots[i] {
            NavSlot::NotMapping => None,
            NavSlot::WithoutTopic => None,
            NavSlot::TopicNotText => Some(NavAction::Replace(i)),
            NavSlot::TopicPath(p) => match extract_date_from_nav_path(p.as_str()) {
                Some(current) => if day > current {
                    Some(NavAction::Replace(i))
                } else {
                    Some(NavAction::Keep(i))
                },
                None => Some(NavAction::Replace(i)),
            },
        };
        match action {
            Some(a) => {
                proof {
                    assert(is_first_topic_slot(sv, i as int));
                    lemma_nav_update_first(sv, i as int, day);
                }
                return a;
            },
            None => {
                assert(!slot_has_topic(sv[i as int]));
            },
        }
    }
    NavAction::Append
}

/// A topic's navigation entry never moves back in time: an entry whose day can be read and
/// is not earlier than the new page's day is kept.
pub proof fn lemma_nav_never_moves_back(slots: Seq<SlotView>, day: i32, i: int, p: Seq<char>)
    requires
        0 <= i < slots.len(),
        slots[i] == SlotView::TopicPath(p),
        forall|j: int| 0 <= j < i ==> !slot_has_topic(#[trigger] slots[j]),
        nav_path_day(p) matches Some(current) && current >= day,
    ensures
        nav_update_spec(slots, day) == NavAction::Keep(i as usize),
{
    assert(is_first_topic_slot(slots, i));
    lemma_nav_update_first(slots, i, day);
}

/// What the topic's item of the `nav` list holds, read through tags as `serde_yaml` does.
pub open spec fn item_slot_view(item: YamlView, topic: Seq<char>) -> SlotView {
    match untag_view(item) {
        YamlView::Mapping(es) => match key_position(es, topic) {
            None => SlotView::WithoutTopic,
            Some(k) => match untag_view(es[k].1) {
                YamlView::Str(p) => SlotView::TopicPath(p),
                _ => SlotView::TopicNotText,
            },
        },
        _ => SlotView::NotMapping,
    }
}

/// The slots of the items of the `nav` list.
pub open spec fn items_slots(items: Seq<YamlView>, topic: Seq<char>) -> Seq<SlotView> {
    items.map_values(|it: YamlView| item_slot_view(it, topic))
}

/// An item whose topic entry now points to `path` (kept as it is when it holds no topic).
pub open spec fn item_with_path(item: YamlView, topic: Seq<char>, path: Seq<char>) -> YamlView {
    match untag_view(item) {
        YamlView::Mapping(es) => match key_position(es, topic) {
            Some(k) => retag_view(
                item,
                YamlView::Mapping(es.update(k, (es[k].0, YamlView::Str(path)))),
            ),
            None => item,
        },
        _ => item,
    }
}

/// The new item of a topic: a mapping from the topic's name to the page path.
pub open spec fn new_topic_item(topic: Seq<char>, path: Seq<char>) -> YamlView {
    YamlView::Mapping(seq![(YamlView::Str(topic), YamlView::Str(path))])
}

/// The items of the `nav` list after the page of `day` at `path` was added for the topic.
pub open spec fn nav_items_update(
    items: Seq<YamlView>,
    topic: Seq<char>,
    day: i32,
    path: Seq<char>,
) -> Seq<YamlView> {
    let slots = items_slots(items, topic);
    match nav_update_spec(slots, day) {
        NavAction::Replace(_) => {
            let f = first_topic_index(slots);
            items.update(f, item_with_path(items[f], topic, path))
        },
        NavAction::Keep(_) => items,
        NavAction::Append => items.push(new_topic_item(topic, path)),
    }
}

/// The message when the document is not a mapping.
pub open spec fn root_not_mapping_message() -> Seq<char> {
    "mkdocs.yml root must be a mapping"@
}

/// The message when the `nav` field is not a sequence.
pub open spec fn nav_not_sequence_message() -> Seq<char> {
    "mkdocs.yml field 'nav' must be a sequence"@
}

/// The `mkdocs.yml` document after the page of `day` at `path` was added for the topic: the
/// document must be a mapping; its `nav` field is created as an empty sequence at the end when
/// missing, must be a sequence, and its items are updated; tags stay where they were.
pub open spec fn nav_document_update(
    doc: YamlView,
    topic: Seq<char>,
    day: i32,
    path: Seq<char>,
) -> Result<YamlView, Seq<char>> {
    match untag_view(doc) {
        YamlView::Mapping(es) => match key_position(es, "nav"@) {
            Some(k) => match untag_view(es[k].1) {
                YamlView::Sequence(items) => Ok(
                    retag_view(
                        doc,
                        YamlView::Mapping(
                            es.update(
                                k,
                                (
                                    es[k].0,
                                    retag_view(
                                        es[k].1,
                                        YamlView::Sequence(nav_items_update(items, topic, day, path)),
                                    ),
                                ),
                            ),
                        ),
                    ),
                ),
                _ => Err(nav_not_sequence_message()),
            },
            None => Ok(
                retag_view(
                    doc,
                    YamlView::Mapping(
                        es.push(
                            (
                                YamlView::Str("nav"@),
                                YamlView::Sequence(nav_items_update(Seq::empty(), topic, day, path)),
                            ),
                        ),
                    ),
                ),
            ),
        },
        _ => Err(root_not_mapping_message()),
    }
}

fn slot_of(item: &YamlNode, topic: &str) -> (res: NavSlot)
    ensures
        nav_slot_view(res) == item_slot_view(yaml_view(*item), topic@),
{
    let core = untag_ref(item);
    match core {
        YamlNode::Mapping(entries) => {
            proof {
                assert(entries_view(entries@) =~= yaml_view(*core)->Mapping_0);
            }
            match find_key(entries, topic) {
                None => NavSlot::WithoutTopic,
                Some(k) => {
                    let value = untag_ref(&entries[k].value);
                    match value {
                        YamlNode::Str(p) => NavSlot::TopicPath(String::from_str(p.as_str())),
                        _ => NavSlot::TopicNotText,
                    }
                },
            }
        },
        _ => NavSlot::NotMapping,
    }
}

fn set_topic_path(item: YamlNode, topic: &str, path: &str) -> (res: YamlNode)
    ensures
        yaml_view(res) == item_with_path(yaml_view(item), topic@, path@),
    decreases item,
{
    match item {
        YamlNode::Tagged(t, b) => {
            let inner = set_topic_path(*b, topic, path);
            YamlNode::Tagged(t, Box::new(inner))
        },
        YamlNode::Mapping(entries) => {
            let mut entries = entries;
            let ghost before = entries_view(entries@);
            proof {
                assert(before =~= yaml_view(YamlNode::Mapping(entries))->Mapping_0);
            }
            match find_key(&entries, topic) {
                Some(k) => {
                    let ghost old_es = entries@;
                    let e = entries.remove(k);
                    let value = YamlNode::Str(String::from_str(path));
                    let ne = YamlEntry { key: e.key, value };
                    let ghost ne_view = (yaml_view(ne.key), yaml_view(ne.value));
                    entries.insert(k, ne);
                    assert(entries@ =~= old_es.update(k as int, ne));
                    assert(ne_view == (before[k as int].0, YamlView::Str(path@)));
                    assert(entries_view(entries@) =~= before.update(k as int, ne_view));
                    let res = YamlNode::Mapping(entries);
                    assert(yaml_view(res)->Mapping_0 =~= entries_view(entries@));
                    assert(yaml_view(res)->Mapping_0 =~= before.update(
                        k as int,
                        (before[k as int].0, YamlView::Str(path@)),
                    ));
                    res
                },
                None => YamlNode::Mapping(entries),
            }
        },
        other => other,
    }
}

fn update_items(items: Vec<YamlNode>, topic: &str, day: i32, path: &str) -> (res: Vec<YamlNode>)
    ensures
        items_view(res@) == nav_items_update(items_view(items@), topic@, day, path@),
{
    let mut items = items;
    let ghost iv = items_view(items@);
    let mut slots: Vec<NavSlot> = Vec::new();
    let n = items.len();
    for i in 0..n
        invariant
            n == items.len(),
            iv == items_view(items@),
            slots@.len() == i,
            forall|j: int| 0 <= j < i ==> nav_slot_view(#[trigger] slots@[j]) == item_slot_view(
                iv[j],
                topic@,
            ),
    {
        let s = slot_of(&items[i], topic);
        slots.push(s);
    }
    assert(nav_slots_view(slots@) =~= items_slots(iv, topic@));
    match nav_update_action(&slots, day) {
        NavAction::Replace(i) => {
            proof {
                lemma_replace_in_range(items_slots(iv, topic@), day);
            }
            let item = items.remove(i);
            let new_item = set_topic_path(item, topic, path);
            items.insert(i, new_item);
            assert(items_view(items@) =~= iv.update(
                i as int,
                item_with_path(iv[i as int], topic@, path@),
            ));
            items
        },
        NavAction::Keep(_) => items,
        NavAction::Append => {
            let mut entries: Vec<YamlEntry> = Vec::new();
            entries.push(
                YamlEntry {
                    key: YamlNode::Str(String::from_str(topic)),
                    value: YamlNode::Str(String::from_str(path)),
                },
            );
            let ghost es = entries@;
            let node = YamlNode::Mapping(entries);
            assert(yaml_view(node) == new_topic_item(topic@, path@)) by {
                assert(es.len() == 1);
                assert(yaml_view(es[0].key) == YamlView::Str(topic@));
                assert(yaml_view(es[0].value) == YamlView::Str(path@));
                assert(yaml_view(node)->Mapping_0 =~= seq![
                    (YamlView::Str(topic@), YamlView::Str(path@)),
                ]);
            }
            items.push(node);
            assert(items_view(items@) =~= iv.push(new_topic_item(topic@, path@)));
            items
        },
    }
}

proof fn lemma_replace_in_range(slots: Seq<SlotView>, day: i32)
    requires
        slots.len() <= usize::MAX,
    ensures
        nav_update_spec(slots, day) matches NavAction::Replace(i) ==> i as int == first_topic_index(
            slots,
        ) && is_first_topic_slot(slots, i as int),
{
    if exists|i: int| 0 <= i < slots.len() && slot_has_topic(#[trigger] slots[i]) {
        let i = choose|i: int| 0 <= i < slots.len() && slot_has_topic(#[trigger] slots[i]);
        lemma_first_topic_slot(slots, i);
    }
}

fn update_nav_value(v: YamlNode, topic: &str, day: i32, path: &str) -> (res: Option<YamlNode>)
    ensures
        match res {
            Some(n) => untag_view(yaml_view(v)) is Sequence && yaml_view(n) == retag_view(
                yaml_view(v),
                YamlView::Sequence(
                    nav_items_update(untag_view(yaml_view(v))->Sequence_0, topic@, day, path@),
                ),
            ),
            None => !(untag_view(yaml_view(v)) is Sequence),
        },
    decreases v,
{
    match v {
        YamlNode::Tagged(t, b) => match update_nav_value(*b, topic, day, path) {
            Some(n) => Some(YamlNode::Tagged(t, Box::new(n))),
            None => None,
        },
        YamlNode::Sequence(items) => {
            let ghost iv = items_view(items@);
            proof {
                assert(iv =~= yaml_view(YamlNode::Sequence(items))->Sequence_0);
            }
            let updated = update_items(items, topic, day, path);
            let res = YamlNode::Sequence(updated);
            assert(yaml_view(res)->Sequence_0 =~= items_view(updated@));
            Some(res)
        },
        _ => None,
    }
}

fn update_document(doc: YamlNode, topic: &str, day: i32, path: &str) -> (res: Result<YamlNode, String>)
    ensures
        match res {
            Ok(n) => nav_document_update(yaml_view(doc), topic@, day, path@) == Ok::<
                YamlView,
                Seq<char>,
            >(yaml_view(n)),
            Err(e) => nav_document_update(yaml_view(doc), topic@, day, path@) == Err::<
                YamlView,
                Seq<char>,
            >(e@),
        },
    decreases doc,
{
    match doc {
        YamlNode::Tagged(t, b) => match update_document(*b, topic, day, path) {
            Ok(n) => Ok(YamlNode::Tagged(t, Box::new(n))),
            Err(e) => Err(e),
        },
        YamlNode::Mapping(entries) => {
            let mut entries = entries;
            let ghost old_es = entries@;
            let ghost before = entries_view(entries@);
            proof {
                assert(before =~= yaml_view(YamlNode::Mapping(entries))->Mapping_0);
            }
            match find_key(&entries, "nav") {
                Some(k) => {
                    let e = entries.remove(k);
                    assert(yaml_view(e.value) == before[k as int].1);
                    match update_nav_value(e.value, topic, day, path) {
                        Some(nv) => {
                            let ne = YamlEntry { key: e.key, value: nv };
                            let ghost ne_view = (yaml_view(ne.key), yaml_view(ne.value));
                            entries.insert(k, ne);
                            assert(entries@ =~= old_es.update(k as int, ne));
                            assert(entries_view(entries@) =~= before.update(k as int, ne_view));
                            let res = YamlNode::Mapping(entries);
                            assert(yaml_view(res)->Mapping_0 =~= entries_view(entries@));
                            Ok(res)
                        },
                        None => Err(String::from_str("mkdocs.yml field 'nav' must be a sequence")),
                    }
                },
                None => {
                    let empty: Vec<YamlNode> = Vec::new();
                    assert(items_view(empty@) =~= Seq::<YamlView>::empty());
                    let items = update_items(empty, topic, day, path);
                    let nav_value = YamlNode::Sequence(items);
                    assert(yaml_view(nav_value)->Sequence_0 =~= items_view(items@));
                    let ne = YamlEntry { key: YamlNode::Str(String::from_str("nav")), value: nav_value };
                    let ghost ne_view = (yaml_view(ne.key), yaml_view(ne.value));
                    entries.push(ne);
                    assert(entries@ =~= old_es.push(ne));
                    assert(entries_view(entries@) =~= before.push(ne_view));
                    let res = YamlNode::Mapping(entries);
                    assert(yaml_view(res)->Mapping_0 =~= entries_view(entries@));
                    Ok(res)
                },
            }
        },
        _ => Err(String::from_str("mkdocs.yml root must be a mapping")),
    }
}

/// Adds the page of a topic for a day to the `nav` list of the `mkdocs.yml` document: the
/// topic's item points to `{folder}/{date}.md` unless it points to a page of the same or a
/// later day, and an item is appended when there is none; the `nav` field is created when
/// missing. Fails when the document is not a mapping or `nav` is not a sequence.
pub fn update_nav_document(doc: YamlNode, topic_name: &str, day: i32, date_text: &str) -> (res:
    Result<YamlNode, String>)
    ensures
        match res {
            Ok(n) => nav_document_update(
                yaml_view(doc),
                topic_name@,
                day,
                nav_entry_spec(topic_name@, date_text@),
            ) == Ok::<YamlView, Seq<char>>(yaml_view(n)),
            Err(e) => nav_document_update(
                yaml_view(doc),
                topic_name@,
                day,
                nav_entry_spec(topic_name@, date_text@),
            ) == Err::<YamlView, Seq<char>>(e@),
        },
{
    let path = nav_entry_path(topic_name, date_text);
    update_document(doc, topic_name, day, path.as_str())
}

proof fn lemma_item_with_path_slot(item: YamlView, topic: Seq<char>, path: Seq<char>)
    requires
        slot_has_topic(item_slot_view(item, topic)),
    ensures
        item_slot_view(item_with_path(item, topic, path), topic) == SlotView::TopicPath(path),
{
    let es = untag_view(item)->Mapping_0;
    let k = key_position(es, topic)->0;
    lemma_key_position(es, topic);
    let es2 = es.update(k, (es[k].0, YamlView::Str(path)));
    lemma_untag_retag(item, YamlView::Mapping(es2));
    lemma_key_position_same_keys(es, es2, topic);
}

proof fn lemma_nav_items_idempotent(items: Seq<YamlView>, topic: Seq<char>, day: i32, path: Seq<char>)
    requires
        nav_path_day(path) == Some(day),
    ensures
        nav_items_update(nav_items_update(items, topic, day, path), topic, day, path)
            == nav_items_update(items, topic, day, path),
{
    let slots = items_slots(items, topic);
    let items1 = nav_items_update(items, topic, day, path);
    let slots1 = items_slots(items1, topic);
    if exists|i: int| 0 <= i < slots.len() && slot_has_topic(#[trigger] slots[i]) {
        let i0 = choose|i: int| 0 <= i < slots.len() && slot_has_topic(#[trigger] slots[i]);
        lemma_first_topic_slot(slots, i0);
        let f = choose|k: int| is_first_topic_slot(slots, k);
        lemma_nav_update_first(slots, f, day);
        match nav_update_spec(slots, day) {
            NavAction::Replace(_) => {
                lemma_item_with_path_slot(items[f], topic, path);
                assert forall|j: int| 0 <= j < f implies !slot_has_topic(#[trigger] slots1[j]) by {
                    assert(slots1[j] == slots[j]);
                }
                assert(slots1[f] == SlotView::TopicPath(path));
                assert(is_first_topic_slot(slots1, f));
                lemma_nav_update_first(slots1, f, day);
            },
            _ => {},
        }
    } else {
        let x = new_topic_item(topic, path);
        let xes = seq![(YamlView::Str(topic), YamlView::Str(path))];
        lemma_key_position_found(xes, topic, 0);
        assert(item_slot_view(x, topic) == SlotView::TopicPath(path));
        let n = items.len() as int;
        assert forall|j: int| 0 <= j < n implies !slot_has_topic(#[trigger] slots1[j]) by {
            assert(slots1[j] == slots[j]);
        }
        assert(is_first_topic_slot(slots1, n));
        lemma_nav_update_first(slots1, n, day);
    }
}

/// Adding the same page twice is adding it once: a second update of the `nav` list for the
/// same topic and day leaves the document as the first left it. It is stated for an entry path
/// that reads back as the page's day, as `{folder}/YYYY-MM-DD.md` does.
pub proof fn lemma_nav_update_idempotent(doc: YamlView, topic: Seq<char>, day: i32, path: Seq<char>)
    requires
        nav_path_day(path) == Some(day),
    ensures
        nav_document_update(doc, topic, day, path) matches Ok(d1) ==> nav_document_update(
            d1,
            topic,
            day,
            path,
        ) == Ok::<YamlView, Seq<char>>(d1),
{
    if let YamlView::Mapping(es) = untag_view(doc) {
        let nav = "nav"@;
        lemma_key_position(es, nav);
        match key_position(es, nav) {
            Some(k) => {
                if let YamlView::Sequence(items) = untag_view(es[k].1) {
                    let items1 = nav_items_update(items, topic, day, path);
                    let v1 = retag_view(es[k].1, YamlView::Sequence(items1));
                    let es1 = es.update(k, (es[k].0, v1));
                    let d1 = retag_view(doc, YamlView::Mapping(es1));
                    lemma_untag_retag(doc, YamlView::Mapping(es1));
                    lemma_key_position_same_keys(es, es1, nav);
                    lemma_untag_retag(es[k].1, YamlView::Sequence(items1));
                    lemma_nav_items_idempotent(items, topic, day, path);
                    lemma_retag_retag(es[k].1, YamlView::Sequence(items1), YamlView::Sequence(items1));
                    assert(es1.update(k, (es1[k].0, v1)) =~= es1);
                    lemma_retag_retag(doc, YamlView::Mapping(es1), YamlView::Mapping(es1));
                }
            },
            None => {
                let items1 = nav_items_update(Seq::empty(), topic, day, path);
                let ne = (YamlView::Str(nav), YamlView::Sequence(items1));
                let es1 = es.push(ne);
                lemma_untag_retag(doc, YamlView::Mapping(es1));
                assert forall|j: int| 0 <= j < es.len() implies (#[trigger] es1[j]).0
                    != YamlView::Str(nav) by {
                    assert(es1[j] == es[j]);
                }
                assert(is_first_key(es1, nav, es.len() as int));
                lemma_key_position_found(es1, nav, es.len() as int);
                lemma_key_position(es1, nav);
                lemma_first_key_unique(es1, nav, es.len() as int, key_position(es1, nav)->0);
                lemma_nav_items_idempotent(Seq::empty(), topic, day, path);
                assert(es1.update(es.len() as int, (es1[es.len() as int].0, YamlView::Sequence(items1))) =~= es1);
                lemma_retag_retag(doc, YamlView::Mapping(es1), YamlView::Mapping(es1));
            },
        }
    }
}

/// The same law for the page of a day as `update_nav_document` writes it, `{folder}/{date}.md`:
/// it holds whenever `chrono` reads the date text back as the day (as `day_text` ensures) and
/// the file stem of the entry is the date text (as `Path::file_stem` gives it, see
/// `extract_date_from_nav_path`).
pub proof fn lemma_nav_page_update_idempotent(
    doc: YamlView,
    topic: Seq<char>,
    day: i32,
    date_text: Seq<char>,
)
    requires
        chrono_parse_date(date_text) == Ok::<i32, Seq<char>>(day),
        std_file_stem(nav_entry_spec(topic, date_text)) == Some(date_text),
    ensures
        nav_document_update(doc, topic, day, nav_entry_spec(topic, date_text)) matches Ok(d1)
            ==> nav_document_update(d1, topic, day, nav_entry_spec(topic, date_text)) == Ok::<
            YamlView,
            Seq<char>,
        >(d1),
{
    lemma_nav_update_idempotent(doc, topic, day, nav_entry_spec(topic, date_text));
}

/// The new text of `mkdocs.yml` (at `yml_path`) after the page of a topic for the day with
/// text `date_text` was added to its `nav` list: the text is parsed, the document updated and
/// printed; each step's failure is reported with what `serde_yaml` says.
pub open spec fn mkdocs_yml_update(
    raw: Seq<char>,
    yml_path: Seq<char>,
    topic: Seq<char>,
    day: i32,
    date_text: Seq<char>,
) -> Result<Seq<char>, Seq<char>> {
    match yaml_parse(raw) {
        Err(e) => Err("parse mkdocs.yml failed (path='"@ + yml_path + "'): "@ + e),
        Ok(doc) => match nav_document_update(doc, topic, day, nav_entry_spec(topic, date_text)) {
            Err(e) => Err(e),
            Ok(updated) => match yaml_text(updated) {
                Ok(t) => Ok(t),
                Err(e) => Err("serialize mkdocs.yml failed (path='"@ + yml_path + "'): "@ + e),
            },
        },
    }
}

fn path_message(prefix: &str, yml_path: &str, err: &str) -> (res: String)
    ensures
        res@ == prefix@ + yml_path@ + "'): "@ + err@,
{
    let mut m = String::from_str(prefix);
    m.append(yml_path);
    m.append("'): ");
    m.append(err);
    m
}

/// Adds the page of a topic for a day to the `nav` list of the text of `mkdocs.yml`: the
/// entry points to `{folder}/{date}.md`, with the day's `YYYY-MM-DD` text. Nothing when the
/// day is out of `chrono`'s range.
pub fn update_mkdocs_yml(raw: &str, yml_path: &str, topic_name: &str, day: i32) -> (res: Option<
    Result<String, String>,
>)
    ensures
        match chrono_date_text(day) {
            None => res is None,
            Some(date_text) => match res {
                Some(Ok(t)) => mkdocs_yml_update(raw@, yml_path@, topic_name@, day, date_text)
                    == Ok::<Seq<char>, Seq<char>>(t@),
                Some(Err(e)) => mkdocs_yml_update(raw@, yml_path@, topic_name@, day, date_text)
                    == Err::<Seq<char>, Seq<char>>(e@),
                None => false,
            },
        },
{
    let date_text = match day_text(day) {
        Some(t) => t,
        None => {
            return None;
        },
    };
    let doc = match parse_yaml(raw) {
        Ok(d) => d,
        Err(err) => {
            return Some(Err(path_message("parse mkdocs.yml failed (path='", yml_path, err.as_str())));
        },
    };
    let updated = match update_nav_document(doc, topic_name, day, date_text.as_str()) {
        Ok(u) => u,
        Err(e) => {
            return Some(Err(e));
        },
    };
    match print_yaml(updated) {
        Ok(t) => Some(Ok(t)),
        Err(err) => Some(Err(path_message("serialize mkdocs.yml failed (path='", yml_path, err.as_str()))),
    }
}

/// A topic's entry in the `nav` list only moves forward: when the first item holding the topic
/// points to a page whose day `d0` can be read, that item points to the new page if the new day
/// is later and stays as it is otherwise; the list keeps its length and its other items.
pub proof fn lemma_nav_items_monotone(
    items: Seq<YamlView>,
    topic: Seq<char>,
    day: i32,
    path: Seq<char>,
    f: int,
    p: Seq<char>,
    d0: i32,
)
    requires
        is_first_topic_slot(items_slots(items, topic), f),
        items_slots(items, topic)[f] == SlotView::TopicPath(p),
        nav_path_day(p) == Some(d0),
    ensures
        nav_items_update(items, topic, day, path).len() == items.len(),
        forall|j: int|
            0 <= j < items.len() && j != f ==> #[trigger] nav_items_update(items, topic, day, path)[j]
                == items[j],
        nav_items_update(items, topic, day, path)[f] == (if day > d0 {
            item_with_path(items[f], topic, path)
        } else {
            items[f]
        }),
        day > d0 ==> item_slot_view(nav_items_update(items, topic, day, path)[f], topic)
            == SlotView::TopicPath(path),
{
    let slots = items_slots(items, topic);
    lemma_nav_update_first(slots, f, day);
    lemma_first_topic_slot(slots, f);
    let k = first_topic_index(slots);
    if k < f {
        assert(!slot_has_topic(slots[k]));
    }
    if k > f {
        assert(!slot_has_topic(slots[f]));
    }
    if day > d0 {
        lemma_item_with_path_slot(items[f], topic, path);
    }
}

/// Updating the `nav` list of a document whose `nav` is a sequence changes nothing but that
/// field: the document stays a mapping with the same keys, in the same order, and the same
/// values under every other key.
pub proof fn lemma_nav_document_keeps_other_keys(
    doc: YamlView,
    topic: Seq<char>,
    day: i32,
    path: Seq<char>,
    es: Seq<(YamlView, YamlView)>,
    k: int,
)
    requires
        untag_view(doc) == YamlView::Mapping(es),
        key_position(es, "nav"@) == Some(k),
        untag_view(es[k].1) is Sequence,
    ensures
        nav_document_update(doc, topic, day, path) matches Ok(d1) && untag_view(d1) matches YamlView::Mapping(
            es1,
        ) && es1.len() == es.len() && es1[k].0 == es[k].0 && (forall|j: int|
            0 <= j < es.len() && j != k ==> #[trigger] es1[j] == es[j]) && untag_view(es1[k].1)
            == YamlView::Sequence(
            nav_items_update(untag_view(es[k].1)->Sequence_0, topic, day, path),
        ),
{
    let items = untag_view(es[k].1)->Sequence_0;
    let s1 = YamlView::Sequence(nav_items_update(items, topic, day, path));
    let v1 = retag_view(es[k].1, s1);
    let es1 = es.update(k, (es[k].0, v1));
    lemma_untag_retag(doc, YamlView::Mapping(es1));
    lemma_untag_retag(es[k].1, s1);
}

/// The entry of a page ends in `/{date}.md` with the date text as a plain stem, so its file
/// stem, as `extract_date_from_nav_path` reports it, is the date text.
pub proof fn lemma_nav_entry_is_md_file_path(topic: Seq<char>, date_text: Seq<char>)
    requires
        is_date_text(date_text),
    ensures
        is_md_file_path(nav_entry_spec(topic, date_text), date_text),
{
    lemma_date_text_is_plain_stem(date_text);
    reveal_strlit("/");
    reveal_strlit(".md");
    let path = nav_entry_spec(topic, date_text);
    let n = path.len() as int;
    let tail = "/"@ + date_text + ".md"@;
    assert(path =~= sanitize_topic_name_spec(topic) + tail);
    assert(path.subrange(n - date_text.len() - 4, n) =~= tail);
}

proof fn lemma_sections_prefix(template: Seq<char>, papers: Seq<RankedPaper>, p: RankedPaper, ai_name: Seq<char>, k: int)
    requires
        0 <= k <= papers.len(),
    ensures
        paper_sections_upto(template, papers.push(p), ai_name, k) == paper_sections_upto(
            template,
            papers,
            ai_name,
            k,
        ),
    decreases k,
{
    if k > 1 {
        lemma_sections_prefix(template, papers, p, ai_name, k - 1);
        assert(papers.push(p)[k - 1] == papers[k - 1]);
    } else if k == 1 {
        assert(papers.push(p)[0] == papers[0]);
    }
}

/// The paper sections of a page are the sections of the given papers, each once and in the
/// given order: no papers give no text, one paper gives its section, and one more paper at the
/// end adds a blank line and its section after those of the others.
pub proof fn lemma_paper_sections_in_order(
    template: Seq<char>,
    papers: Seq<RankedPaper>,
    p: RankedPaper,
    ai_name: Seq<char>,
)
    ensures
        paper_sections_upto(template, Seq::<RankedPaper>::empty(), ai_name, 0) == Seq::<char>::empty(),
        paper_sections_upto(template, seq![p], ai_name, 1) == paper_section_spec(
            template,
            p.entry,
            p.relevance_text@,
            ai_name,
        ),
        papers.len() > 0 ==> paper_sections_upto(
            template,
            papers.push(p),
            ai_name,
            papers.len() + 1 as int,
        ) == paper_sections_upto(template, papers, ai_name, papers.len() as int) + "\n\n"@
            + paper_section_spec(template, p.entry, p.relevance_text@, ai_name),
{
    lemma_sections_prefix(template, papers, p, ai_name, papers.len() as int);
    assert(papers.push(p)[papers.len() as int] == p);
}

} // verus!
