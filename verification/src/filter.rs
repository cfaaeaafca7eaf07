//! Relevance filtering of papers against a topic: the prompt sent to the language model, the
//! reading of its scores, and the split of the work between workers.
use vstd::prelude::*;
use crate::json::{
    json_as_object, json_as_str, json_as_u64, json_get, json_is_number, json_is_positive_number,
    lookup_member, member_lookup, JsonMember, JsonValue,
};
use crate::text::{
    decimal_chars, decimal_spec, decimal_string, push_str, push_all, replace, replace_spec,
    string_of, to_ascii_uppercase, ascii_upper_spec, text_less, text_less_exec,
    lemma_text_less_transitive, lemma_text_less_irreflexive,
};

verus! {

/// A relevance dimension as the prompt names it.
#[derive(Debug)]
pub struct DimensionKey {
    /// The key under which the model reports the dimension.
    pub key: String,
    /// The display name of the dimension.
    pub name: String,
}

/// The score and reason that the model gave for one dimension.
#[derive(Debug)]
pub struct DimensionScore {
    pub key: String,
    pub name: String,
    /// The score, `0..=10`.
    pub score: u8,
    pub reason: String,
}

/// The plain values of a dimension score: key, name, score, reason.
pub type ScoreView = (Seq<char>, Seq<char>, u8, Seq<char>);

/// The plain values of a dimension score.
pub open spec fn score_view(s: DimensionScore) -> ScoreView {
    (s.key@, s.name@, s.score, s.reason@)
}

/// The message when the answer has no `dimensional_scores` object.
pub open spec fn missing_scores_message() -> Seq<char> {
    "AI response missing object field 'dimensional_scores'"@
}

/// The reading of one dimension from the members of the `dimensional_scores` object.
pub open spec fn dimension_outcome(d: DimensionKey, members: Seq<JsonMember>) -> Result<
    ScoreView,
    Seq<char>,
> {
    let key = d.key@;
    match member_lookup(members, key) {
        None => Err("AI response missing dimension key '"@ + key + "'"@),
        Some(item) => match json_get(item, "score"@) {
            None => Err("dimension '"@ + key + "' missing integer field 'score'"@),
            Some(sv) => match json_as_u64(sv) {
                None => Err("dimension '"@ + key + "' missing integer field 'score'"@),
                Some(score) => if score > 10 {
                    Err(
                        "dimension '"@ + key + "' has invalid score "@ + decimal_spec(score as nat)
                            + ", expected 0..=10"@,
                    )
                } else {
                    match json_get(item, "reason"@) {
                        None => Err("dimension '"@ + key + "' missing string field 'reason'"@),
                        Some(rv) => match json_as_str(rv) {
                            None => Err("dimension '"@ + key + "' missing string field 'reason'"@),
                            Some(reason) => Ok((key, d.name@, score as u8, reason)),
                        },
                    }
                },
            },
        },
    }
}

/// The readings of the first `k` dimensions, or the error of the first that fails.
pub open spec fn dimension_outcomes_upto(
    dims: Seq<DimensionKey>,
    members: Seq<JsonMember>,
    k: int,
) -> Result<Seq<ScoreView>, Seq<char>>
    decreases k,
{
    if k <= 0 {
        Ok(Seq::empty())
    } else {
        match dimension_outcomes_upto(dims, members, k - 1) {
            Err(e) => Err(e),
            Ok(p) => match dimension_outcome(dims[k - 1], members) {
                Err(e) => Err(e),
                Ok(v) => Ok(p.push(v)),
            },
        }
    }
}

/// The reading of an answer of the model: for every dimension, in the given order, its
/// score (`0..=10`) and reason; or the error of the first thing that is missing or invalid.
pub open spec fn relevance_scores_spec(dims: Seq<DimensionKey>, response: JsonValue) -> Result<
    Seq<ScoreView>,
    Seq<char>,
> {
    match json_get(response, "dimensional_scores"@) {
        None => Err(missing_scores_message()),
        Some(obj) => match json_as_object(obj) {
            None => Err(missing_scores_message()),
            Some(members) => dimension_outcomes_upto(dims, members, dims.len() as int),
        },
    }
}

proof fn lemma_outcomes_error_persists(
    dims: Seq<DimensionKey>,
    members: Seq<JsonMember>,
    k: int,
    m: int,
)
    requires
        0 <= k <= m,
        dimension_outcomes_upto(dims, members, k) is Err,
    ensures
        dimension_outcomes_upto(dims, members, m) == dimension_outcomes_upto(dims, members, k),
    decreases m - k,
{
    if m > k {
        lemma_outcomes_error_persists(dims, members, k, m - 1);
    }
}

fn key_message(prefix: &str, key: &str, suffix: &str) -> (res: String)
    ensures
        res@ == prefix@ + key@ + suffix@,
{
    let mut m = String::from_str(prefix);
    m.append(key);
    m.append(suffix);
    m
}

fn read_dimension(d: &DimensionKey, members: &Vec<JsonMember>) -> (res: Result<DimensionScore, String>)
    ensures
        match res {
            Ok(s) => dimension_outcome(*d, members@) == Ok::<ScoreView, Seq<char>>(score_view(s)),
            Err(e) => dimension_outcome(*d, members@) == Err::<ScoreView, Seq<char>>(e@),
        },
{
    let key = d.key.as_str();
    let item = match lookup_member(members, key) {
        Some(v) => v,
        None => {
            return Err(key_message("AI response missing dimension key '", key, "'"));
        },
    };
    let score = match item.get("score") {
        Some(sv) => match sv.as_u64() {
            Some(n) => n,
            None => {
                return Err(key_message("dimension '", key, "' missing integer field 'score'"));
            },
        },
        None => {
            return Err(key_message("dimension '", key, "' missing integer field 'score'"));
        },
    };
    if score > 10 {
        let mut m = String::from_str("dimension '");
        m.append(key);
        m.append("' has invalid score ");
        let digits = decimal_string(score);
        m.append(digits.as_str());
        m.append(", expected 0..=10");
        return Err(m);
    }
    let reason = match item.get("reason") {
        Some(rv) => match rv.as_str() {
            Some(r) => String::from_str(r),
            None => {
                return Err(key_message("dimension '", key, "' missing string field 'reason'"));
            },
        },
        None => {
            return Err(key_message("dimension '", key, "' missing string field 'reason'"));
        },
    };
    Ok(
        DimensionScore {
            key: String::from_str(key),
            name: String::from_str(d.name.as_str()),
            score: score as u8,
            reason,
        },
    )
}

/// Reads the scores of an answer of the model, dimension by dimension in the given order.
pub fn read_relevance_scores(dims: &Vec<DimensionKey>, response: &JsonValue) -> (res: Result<
    Vec<DimensionScore>,
    String,
>)
    ensures
        match res {
            Ok(v) => relevance_scores_spec(dims@, *response) == Ok::<Seq<ScoreView>, Seq<char>>(
                v@.map_values(|s: DimensionScore| score_view(s)),
            ),
            Err(e) => relevance_scores_spec(dims@, *response) == Err::<Seq<ScoreView>, Seq<char>>(
                e@,
            ),
        },
{
    let members = match response.get("dimensional_scores") {
        Some(obj) => match obj.as_object() {
            Some(m) => m,
            None => {
                return Err(String::from_str("AI response missing object field 'dimensional_scores'"));
            },
        },
        None => {
            return Err(String::from_str("AI response missing object field 'dimensional_scores'"));
        },
    };
    let mut scores: Vec<DimensionScore> = Vec::new();
    let n = dims.len();
    assert(scores@.map_values(|s: DimensionScore| score_view(s)) =~= Seq::<ScoreView>::empty());
    for k in 0..n
        invariant
            n == dims.len(),
            json_get(*response, "dimensional_scores"@) matches Some(obj) && json_as_object(obj)
                == Some(members@),
            dimension_outcomes_upto(dims@, members@, k as int) == Ok::<Seq<ScoreView>, Seq<char>>(
                scores@.map_values(|s: DimensionScore| score_view(s)),
            ),
    {
        match read_dimension(&dims[k], members) {
            Ok(s) => {
                let ghost before = scores@;
                scores.push(s);
                assert(scores@.map_values(|s: DimensionScore| score_view(s)) =~= before.map_values(
                    |s: DimensionScore| score_view(s),
                ).push(score_view(s)));
            },
            Err(e) => {
                proof {
                    lemma_outcomes_error_persists(dims@, members@, k + 1, n as int);
                }
                return Err(e);
            },
        }
    }
    Ok(scores)
}

/// The prompt for one paper: the rendered template with `{title}` replaced, then
/// `{abstract}` replaced.
pub open spec fn relevance_prompt_spec(
    template: Seq<char>,
    title: Seq<char>,
    abstract_text: Seq<char>,
) -> Seq<char> {
    replace_spec(replace_spec(template, "{title}"@, title), "{abstract}"@, abstract_text)
}

/// Fills the title and abstract of a paper into the rendered prompt template.
pub fn relevance_prompt(template: &str, title: &str, abstract_text: &str) -> (res: String)
    ensures
        res@ == relevance_prompt_spec(template@, title@, abstract_text@),
{
    proof {
        reveal_strlit("{title}");
        reveal_strlit("{abstract}");
    }
    let with_title = replace(template, "{title}", title);
    replace(with_title.as_str(), "{abstract}", abstract_text)
}

/// A relevance dimension as it is described to the model.
#[derive(Debug)]
pub struct DimensionText {
    pub key: String,
    pub name: String,
    pub description: String,
}

/// The line that describes dimension number `i` (counted from zero) to the model.
pub open spec fn dimension_line(i: nat, d: DimensionText) -> Seq<char> {
    decimal_spec(i + 1) + ". **"@ + d.name@ + "**("@ + d.key@ + ")\u{ff1a}"@ + d.description@
}

/// The lines of the first `k` dimensions, separated by line breaks.
pub open spec fn dimension_lines_upto(dims: Seq<DimensionText>, k: int) -> Seq<char>
    decreases k,
{
    if k <= 0 {
        Seq::empty()
    } else if k == 1 {
        dimension_line(0, dims[0])
    } else {
        dimension_lines_upto(dims, k - 1) + "\n"@ + dimension_line((k - 1) as nat, dims[k - 1])
    }
}

/// The numbered list of dimensions, in the given order.
pub open spec fn dimensions_block_spec(dims: Seq<DimensionText>) -> Seq<char> {
    dimension_lines_upto(dims, dims.len() as int)
}

/// Builds the numbered list of dimensions: `1. **name**(key)：description`, one per line.
pub fn build_dimensions_block(dims: &Vec<DimensionText>) -> (res: String)
    requires
        dims@.len() < u64::MAX,
    ensures
        res@ == dimensions_block_spec(dims@),
{
    let mut out: Vec<char> = Vec::new();
    let n = dims.len();
    for i in 0..n
        invariant
            n == dims.len(),
            n < u64::MAX,
            out@ == dimension_lines_upto(dims@, i as int),
    {
        let d = &dims[i];
        if i > 0 {
            push_str(&mut out, "\n");
        }
        let num = decimal_chars((i as u64) + 1);
        push_all(&mut out, &num);
        push_str(&mut out, ". **");
        push_str(&mut out, d.name.as_str());
        push_str(&mut out, "**(");
        push_str(&mut out, d.key.as_str());
        push_str(&mut out, ")\u{ff1a}");
        push_str(&mut out, d.description.as_str());
        assert(out@ =~= dimension_lines_upto(dims@, i + 1));
    }
    string_of(&out)
}

/// The pretty-printed JSON text (`serde_json::to_string_pretty`) of the object
/// `{outer: {key: {score_key: score, reason_key: reason}, ...}}` built from the entries.
pub uninterp spec fn pretty_score_template_json(
    outer: Seq<char>,
    score_key: Seq<char>,
    reason_key: Seq<char>,
    score: u64,
    entries: Seq<(Seq<char>, Seq<char>)>,
) -> Seq<char>;

/// Builds the object `{outer: {key: {score_key: score, reason_key: reason}, ...}}` from the
/// entries with `serde_json` and pretty-prints it with `serde_json::to_string_pretty`, or
/// gives `{}` if printing fails. Nothing about the text is stated beyond its name: member
/// order, indentation and escaping are those of `serde_json`.
#[verifier::external_body]
fn score_template_json(
    outer: &str,
    score_key: &str,
    reason_key: &str,
    score: u64,
    entries: &Vec<(String, String)>,
) -> (res: String)
    ensures
        res@ == pretty_score_template_json(
            outer@,
            score_key@,
            reason_key@,
            score,
            entries@.map_values(|e: (String, String)| (e.0@, e.1@)),
        ),
{
    let mut dims = serde_json::Map::new();
    for (key, reason) in entries {
        let mut item = serde_json::Map::new();
        item.insert(score_key.to_string(), serde_json::Value::from(score));
        item.insert(reason_key.to_string(), serde_json::Value::String(reason.clone()));
        dims.insert(key.clone(), serde_json::Value::Object(item));
    }
    let mut root = serde_json::Map::new();
    root.insert(outer.to_string(), serde_json::Value::Object(dims));
    serde_json::to_string_pretty(&serde_json::Value::Object(root)).unwrap_or_else(|_| "{}".to_string())
}

/// The placeholder reason of a dimension key: `REASON_FOR_` and the key in upper case.
pub open spec fn reason_placeholder(key: Seq<char>) -> Seq<char> {
    "REASON_FOR_"@ + ascii_upper_spec(key)
}

/// The answer template shown to the model, for the dimensions in the given order.
pub open spec fn json_output_block_spec(dims: Seq<DimensionText>) -> Seq<char> {
    pretty_score_template_json(
        "dimensional_scores"@,
        "score"@,
        "reason"@,
        0,
        dims.map_values(|d: DimensionText| (d.key@, reason_placeholder(d.key@))),
    )
}

/// Builds the JSON answer template: every dimension with score `0` and a placeholder reason.
pub fn build_json_output_block(dims: &Vec<DimensionText>) -> (res: String)
    ensures
        res@ == json_output_block_spec(dims@),
{
    let mut entries: Vec<(String, String)> = Vec::new();
    let n = dims.len();
    for i in 0..n
        invariant
            n == dims.len(),
            entries@.len() == i,
            forall|j: int|
                0 <= j < i ==> (#[trigger] entries@[j]).0@ == dims@[j].key@ && entries@[j].1@
                    == reason_placeholder(dims@[j].key@),
    {
        let key = dims[i].key.as_str();
        let mut reason = String::from_str("REASON_FOR_");
        let upper = to_ascii_uppercase(key);
        reason.append(upper.as_str());
        let key_owned = String::from_str(key);
        entries.push((key_owned, reason));
    }
    assert(entries@.map_values(|e: (String, String)| (e.0@, e.1@)) =~= dims@.map_values(
        |d: DimensionText| (d.key@, reason_placeholder(d.key@)),
    ));
    score_template_json("dimensional_scores", "score", "reason", 0, &entries)
}

/// Replaces both spellings of a placeholder: first the one the shipped templates use, then
/// the one the documentation uses.
pub open spec fn replace_both(s: Seq<char>, first: Seq<char>, second: Seq<char>, rep: Seq<char>) -> Seq<char> {
    replace_spec(replace_spec(s, first, rep), second, rep)
}

/// The prompt template of a topic: `{topic}`; the number of dimensions for `{dimonsion_num}`
/// and `{dimension_num}`; the list of dimensions for `{dimonsions}` and `{dimensions}`; the
/// answer template for `{json_output}` and `{json_outputs}`; replaced in this order.
pub open spec fn render_relevance_template_spec(
    template: Seq<char>,
    topic: Seq<char>,
    dims: Seq<DimensionText>,
) -> Seq<char> {
    let a = replace_spec(template, "{topic}"@, topic);
    let b = replace_both(a, "{dimonsion_num}"@, "{dimension_num}"@, decimal_spec(dims.len()));
    let c = replace_both(b, "{dimonsions}"@, "{dimensions}"@, dimensions_block_spec(dims));
    replace_both(c, "{json_output}"@, "{json_outputs}"@, json_output_block_spec(dims))
}

/// Renders the prompt template of a topic for the dimensions, given in the order in which
/// they are listed (by weight, heaviest first, then by key).
pub fn render_relevance_template(template: &str, topic: &str, dims: &Vec<DimensionText>) -> (res:
    String)
    requires
        dims@.len() < u64::MAX,
    ensures
        res@ == render_relevance_template_spec(template@, topic@, dims@),
{
    proof {
        reveal_strlit("{topic}");
        reveal_strlit("{dimonsion_num}");
        reveal_strlit("{dimension_num}");
        reveal_strlit("{dimonsions}");
        reveal_strlit("{dimensions}");
        reveal_strlit("{json_output}");
        reveal_strlit("{json_outputs}");
    }
    let block = build_dimensions_block(dims);
    let json_output = build_json_output_block(dims);
    let count = decimal_string(dims.len() as u64);
    let a = replace(template, "{topic}", topic);
    let b1 = replace(a.as_str(), "{dimonsion_num}", count.as_str());
    let b = replace(b1.as_str(), "{dimension_num}", count.as_str());
    let c1 = replace(b.as_str(), "{dimonsions}", block.as_str());
    let c = replace(c1.as_str(), "{dimensions}", block.as_str());
    let d1 = replace(c.as_str(), "{json_output}", json_output.as_str());
    replace(d1.as_str(), "{json_outputs}", json_output.as_str())
}

/// The number of workers: the configured concurrency (at least one), but no more than there
/// are papers.
pub open spec fn worker_count(total: nat, concurrency: nat) -> nat {
    let c = if concurrency == 0 {
        1nat
    } else {
        concurrency
    };
    if c <= total {
        c
    } else {
        total
    }
}

/// The number of papers of worker `idx`: an equal share, and one more for each of the first
/// `total % workers` workers.
pub open spec fn chunk_len(total: nat, workers: nat, idx: nat) -> nat {
    total / workers + if idx < total % workers {
        1nat
    } else {
        0nat
    }
}

/// The items of the chunks, one chunk after the other.
pub open spec fn flatten_chunks<T>(chunks: Seq<Vec<T>>) -> Seq<T>
    decreases chunks.len(),
{
    if chunks.len() == 0 {
        Seq::empty()
    } else {
        flatten_chunks(chunks.drop_last()) + chunks.last()@
    }
}

/// The papers that the first `k` workers take together.
pub open spec fn chunks_prefix_len(total: nat, workers: nat, k: nat) -> nat {
    k * (total / workers) + if k < total % workers {
        k
    } else {
        total % workers
    }
}

proof fn lemma_prefix_len_step(total: nat, workers: nat, k: nat)
    requires
        workers > 0,
    ensures
        chunks_prefix_len(total, workers, k + 1) == chunks_prefix_len(total, workers, k)
            + chunk_len(total, workers, k),
{
    let b = total / workers;
    assert((k + 1) * b == k * b + b) by (nonlinear_arith);
}

proof fn lemma_prefix_len_bound(total: nat, workers: nat, k: nat)
    requires
        workers > 0,
        k <= workers,
    ensures
        chunks_prefix_len(total, workers, k) <= total,
        k == workers ==> chunks_prefix_len(total, workers, k) == total,
{
    let b = total / workers;
    let r = total % workers;
    assert(total == workers * b + r) by {
        vstd::arithmetic::div_mod::lemma_fundamental_div_mod(total as int, workers as int);
    }
    assert(k * b <= workers * b) by (nonlinear_arith)
        requires
            k <= workers,
    ;
    assert(workers * b == b * workers) by (nonlinear_arith);
}

/// Splits the papers into one chunk per worker, in order: worker `i` takes the next
/// `chunk_len(total, workers, i)` papers.
pub fn split_into_chunks<T>(items: Vec<T>, concurrency: usize) -> (res: Vec<Vec<T>>)
    ensures
        res@.len() == worker_count(items@.len(), concurrency as nat),
        forall|i: int|
            0 <= i < res@.len() ==> (#[trigger] res@[i])@.len() == chunk_len(
                items@.len(),
                worker_count(items@.len(), concurrency as nat),
                i as nat,
            ),
        flatten_chunks(res@) == items@,
{
    let total = items.len();
    let c = if concurrency == 0 {
        1
    } else {
        concurrency
    };
    let workers = if c <= total {
        c
    } else {
        total
    };
    let mut chunks: Vec<Vec<T>> = Vec::new();
    if workers == 0 {
        assert(items@ =~= Seq::<T>::empty());
        return chunks;
    }
    let base = total / workers;
    let rem = total % workers;
    let mut rest = items;
    for idx in 0..workers
        invariant
            workers > 0,
            workers == worker_count(total as nat, concurrency as nat),
            base == total / workers,
            rem == total % workers,
            chunks@.len() == idx,
            rest@.len() == total - chunks_prefix_len(total as nat, workers as nat, idx as nat),
            flatten_chunks(chunks@) + rest@ == items@,
            forall|i: int|
                0 <= i < idx ==> (#[trigger] chunks@[i])@.len() == chunk_len(
                    total as nat,
                    workers as nat,
                    i as nat,
                ),
    {
        proof {
            lemma_prefix_len_step(total as nat, workers as nat, idx as nat);
            lemma_prefix_len_bound(total as nat, workers as nat, (idx + 1) as nat);
        }
        let size = if idx < rem {
            base + 1
        } else {
            base
        };
        let ghost before = chunks@;
        let ghost rest_before = rest@;
        let tail = rest.split_off(size);
        chunks.push(rest);
        rest = tail;
        assert(chunks@.drop_last() =~= before);
        assert(flatten_chunks(chunks@) == flatten_chunks(before) + chunks@.last()@);
        assert(rest_before =~= chunks@.last()@ + rest@);
        assert(flatten_chunks(chunks@) + rest@ =~= flatten_chunks(before) + rest_before);
    }
    proof {
        lemma_prefix_len_bound(total as nat, workers as nat, workers as nat);
    }
    assert(rest@ =~= Seq::<T>::empty());
    assert(flatten_chunks(chunks@) =~= flatten_chunks(chunks@) + rest@);
    chunks
}

/// Every worker gets at least one paper, and the shares of two workers differ by at most one.
pub proof fn lemma_chunks_balanced(total: nat, concurrency: nat, i: nat, j: nat)
    requires
        i < worker_count(total, concurrency),
        j < worker_count(total, concurrency),
    ensures
        chunk_len(total, worker_count(total, concurrency), i) >= 1,
        chunk_len(total, worker_count(total, concurrency), i) <= chunk_len(
            total,
            worker_count(total, concurrency),
            j,
        ) + 1,
{
    let w = worker_count(total, concurrency);
    assert(total / w >= 1) by {
        vstd::arithmetic::div_mod::lemma_div_is_ordered(w as int, total as int, w as int);
        vstd::arithmetic::div_mod::lemma_div_by_self(w as int);
    }
}

/// The chunks of all workers together hold every paper: their lengths add up to the total.
pub proof fn lemma_chunks_cover_all(total: nat, concurrency: nat)
    requires
        total > 0,
    ensures
        chunks_prefix_len(total, worker_count(total, concurrency), worker_count(total, concurrency))
            == total,
{
    lemma_prefix_len_bound(total, worker_count(total, concurrency), worker_count(total, concurrency));
}

/// One dimension of an evaluation as it is listed: its key and score, and its display name
/// and reason when they are known.
#[derive(Debug)]
pub struct DimensionLine {
    pub key: String,
    pub score: u8,
    pub name: Option<String>,
    pub reason: Option<String>,
}

/// `a` is listed before `b`: higher score first, then smaller key.
pub open spec fn listed_before(a: DimensionLine, b: DimensionLine) -> bool {
    a.score > b.score || (a.score == b.score && text_less(a.key@, b.key@))
}

/// The lines are in listing order.
pub open spec fn lines_sorted(s: Seq<DimensionLine>) -> bool {
    forall|i: int, j: int| 0 <= i < j < s.len() ==> !listed_before(#[trigger] s[j], #[trigger] s[i])
}

proof fn lemma_listed_before_transitive(a: DimensionLine, b: DimensionLine, c: DimensionLine)
    requires
        listed_before(a, b),
        listed_before(b, c),
    ensures
        listed_before(a, c),
{
    if a.score == b.score && b.score == c.score {
        lemma_text_less_transitive(a.key@, b.key@, c.key@);
    }
}

fn listed_before_exec(a: &DimensionLine, b: &DimensionLine) -> (res: bool)
    ensures
        res == listed_before(*a, *b),
{
    a.score > b.score || (a.score == b.score && text_less_exec(a.key.as_str(), b.key.as_str()))
}

/// Puts the dimensions in listing order: by score, highest first, then by key.
pub fn sort_dimension_lines(lines: Vec<DimensionLine>) -> (res: Vec<DimensionLine>)
    ensures
        res@.to_multiset() == lines@.to_multiset(),
        lines_sorted(res@),
{
    broadcast use vstd::seq_lib::group_to_multiset_ensures;

    let mut rest = lines;
    let mut out: Vec<DimensionLine> = Vec::new();
    assert(out@.to_multiset().add(rest@.to_multiset()) =~= lines@.to_multiset());
    while rest.len() > 0
        invariant
            out@.to_multiset().add(rest@.to_multiset()) == lines@.to_multiset(),
            lines_sorted(out@),
        decreases rest.len(),
    {
        let ghost rest_before = rest@;
        let ghost out_before = out@;
        let x = rest.pop().unwrap();
        proof {
            assert(rest_before =~= rest@.push(x));
            vstd::seq_lib::to_multiset_build(rest@, x);
        }
        let n = out.len();
        let mut p: usize = 0;
        while p < n && !listed_before_exec(&x, &out[p])
            invariant
                n == out.len(),
                p <= n,
                forall|k: int| 0 <= k < p ==> !listed_before(x, #[trigger] out@[k]),
            decreases n - p,
        {
            p = p + 1;
        }
        proof {
            assert forall|k: int| p <= k < n implies !listed_before(#[trigger] out@[k], x) by {
                if listed_before(out@[k], x) {
                    lemma_listed_before_transitive(out@[k], x, out@[p as int]);
                    if k == p {
                        lemma_text_less_irreflexive(out@[k].key@);
                    } else {
                        assert(!listed_before(out@[k], out@[p as int]));
                    }
                }
            }
        }
        out.insert(p, x);
        proof {
            vstd::seq_lib::to_multiset_insert(out_before, p as int, x);
            assert(out@ =~= out_before.insert(p as int, x));
            assert forall|i: int, j: int| 0 <= i < j < out@.len() implies !listed_before(
                #[trigger] out@[j],
                #[trigger] out@[i],
            ) by {
                if j < p {
                    assert(out@[i] == out_before[i] && out@[j] == out_before[j]);
                } else if j == p {
                    assert(out@[i] == out_before[i]);
                } else if i == p {
                    assert(out@[j] == out_before[j - 1]);
                } else if i < p {
                    assert(out@[i] == out_before[i] && out@[j] == out_before[j - 1]);
                } else {
                    assert(out@[i] == out_before[i - 1] && out@[j] == out_before[j - 1]);
                }
            }
        }
    }
    assert(rest@ =~= Seq::<DimensionLine>::empty());
    assert(out@.to_multiset().add(rest@.to_multiset()) =~= out@.to_multiset());
    out
}

/// The text of one dimension: `- {name} ({key}): {score} / 10`, then `理由：{reason}`,
/// then a blank line; the key stands for a missing name, and a missing reason is empty.
pub open spec fn dimension_line_text(l: DimensionLine) -> Seq<char> {
    let name = match l.name {
        Some(n) => n@,
        None => l.key@,
    };
    let reason = match l.reason {
        Some(r) => r@,
        None => Seq::empty(),
    };
    "- "@ + name + " ("@ + l.key@ + "): "@ + decimal_spec(l.score as nat) + " / 10\n\u{7406}\u{7531}\u{ff1a}"@
        + reason + "\n\n"@
}

/// The texts of the lines, one after the other.
pub open spec fn dimension_lines_text(lines: Seq<DimensionLine>) -> Seq<char>
    decreases lines.len(),
{
    if lines.len() == 0 {
        Seq::empty()
    } else {
        dimension_lines_text(lines.drop_last()) + dimension_line_text(lines.last())
    }
}

fn dimension_line_string(l: &DimensionLine) -> (res: String)
    ensures
        res@ == dimension_line_text(*l),
{
    let mut out = String::from_str("- ");
    match &l.name {
        Some(name) => out.append(name.as_str()),
        None => out.append(l.key.as_str()),
    }
    out.append(" (");
    out.append(l.key.as_str());
    out.append("): ");
    out.append(decimal_string(l.score as u64).as_str());
    out.append(" / 10\n\u{7406}\u{7531}\u{ff1a}");
    match &l.reason {
        Some(reason) => out.append(reason.as_str()),
        None => {},
    }
    out.append("\n\n");
    out
}

/// Writes the dimensions of an evaluation, one entry per dimension, in the given order.
pub fn render_dimension_lines(lines: &Vec<DimensionLine>) -> (res: String)
    ensures
        res@ == dimension_lines_text(lines@),
{
    let mut out = String::new();
    let n = lines.len();
    for i in 0..n
        invariant
            n == lines.len(),
            out@ == dimension_lines_text(lines@.take(i as int)),
    {
        assert(lines@.take(i + 1).drop_last() =~= lines@.take(i as int));
        let line = dimension_line_string(&lines[i]);
        out.append(line.as_str());
    }
    assert(lines@.take(n as int) =~= lines@);
    out
}

/// The plain values of a dimension description: key, name, description.
pub type DimensionTextView = (Seq<char>, Seq<char>, Seq<char>);

/// The plain values of a dimension description.
pub open spec fn dimension_text_view(d: DimensionText) -> DimensionTextView {
    (d.key@, d.name@, d.description@)
}

/// The description text of a dimension item: its `description` string, or, when that is
/// missing or not a string, its `descrtiption` string (the spelling accepted for
/// compatibility).
pub open spec fn dimension_description(item: JsonValue) -> Option<Seq<char>> {
    match json_get(item, "description"@) {
        Some(dv) if json_as_str(dv) is Some => json_as_str(dv),
        _ => match json_get(item, "descrtiption"@) {
            Some(dv) => json_as_str(dv),
            None => None,
        },
    }
}

/// The reading of one member of the `dimensional_scores` object of the dimensions file: it
/// needs a numeric `weight`, a string `name` and a string `description` (or `descrtiption`),
/// and the weight must be positive.
pub open spec fn dimension_entry_spec(m: JsonMember) -> Result<DimensionTextView, Seq<char>> {
    let key = m.key@;
    let item = m.value;
    if !(json_get(item, "weight"@) matches Some(w) && json_is_number(w)) {
        Err("dimension '"@ + key + "' missing numeric 'weight'"@)
    } else {
        match json_get(item, "name"@) {
            None => Err("dimension '"@ + key + "' missing string 'name'"@),
            Some(nv) => match json_as_str(nv) {
                None => Err("dimension '"@ + key + "' missing string 'name'"@),
                Some(name) => match dimension_description(item) {
                    None => Err(
                        "dimension '"@ + key
                            + "' missing string 'description' or 'descrtiption'"@,
                    ),
                    Some(description) => if !json_is_positive_number(
                        json_get(item, "weight"@).unwrap(),
                    ) {
                        Err("dimension '"@ + key + "' weight must be positive"@)
                    } else {
                        Ok((key, name, description))
                    },
                },
            },
        }
    }
}

/// The readings of the first `k` members, or the error of the first that fails.
pub open spec fn dimension_entries_upto(members: Seq<JsonMember>, k: int) -> Result<
    Seq<DimensionTextView>,
    Seq<char>,
>
    decreases k,
{
    if k <= 0 {
        Ok(Seq::empty())
    } else {
        match dimension_entries_upto(members, k - 1) {
            Err(e) => Err(e),
            Ok(p) => match dimension_entry_spec(members[k - 1]) {
                Err(e) => Err(e),
                Ok(v) => Ok(p.push(v)),
            },
        }
    }
}

/// The reading of the dimensions file: its `dimensional_scores` object must exist and not be
/// empty, and every member must be a valid dimension; the members are read in order.
pub open spec fn relevance_dimensions_spec(doc: JsonValue) -> Result<
    Seq<DimensionTextView>,
    Seq<char>,
> {
    match json_get(doc, "dimensional_scores"@) {
        None => Err("missing or invalid 'dimensional_scores' object"@),
        Some(obj) => match json_as_object(obj) {
            None => Err("missing or invalid 'dimensional_scores' object"@),
            Some(members) => if members.len() == 0 {
                Err("relevance dimensions cannot be empty"@)
            } else {
                dimension_entries_upto(members, members.len() as int)
            },
        },
    }
}

proof fn lemma_entries_error_persists(members: Seq<JsonMember>, k: int, m: int)
    requires
        0 <= k <= m,
        dimension_entries_upto(members, k) is Err,
    ensures
        dimension_entries_upto(members, m) == dimension_entries_upto(members, k),
    decreases m - k,
{
    if m > k {
        lemma_entries_error_persists(members, k, m - 1);
    }
}

fn read_description(item: &JsonValue) -> (res: Option<String>)
    ensures
        match res {
            Some(d) => dimension_description(*item) == Some(d@),
            None => dimension_description(*item) is None,
        },
{
    match item.get("description") {
        Some(dv) => match dv.as_str() {
            Some(d) => {
                return Some(String::from_str(d));
            },
            None => {},
        },
        None => {},
    }
    match item.get("descrtiption") {
        Some(dv) => match dv.as_str() {
            Some(d) => Some(String::from_str(d)),
            None => None,
        },
        None => None,
    }
}

fn read_dimension_entry(m: &JsonMember) -> (res: Result<DimensionText, String>)
    ensures
        match res {
            Ok(d) => dimension_entry_spec(*m) == Ok::<DimensionTextView, Seq<char>>(
                dimension_text_view(d),
            ),
            Err(e) => dimension_entry_spec(*m) == Err::<DimensionTextView, Seq<char>>(e@),
        },
{
    let key = m.key.as_str();
    let item = &m.value;
    let weight = match item.get("weight") {
        Some(w) => w,
        None => {
            return Err(key_message("dimension '", key, "' missing numeric 'weight'"));
        },
    };
    if !weight.is_number() {
        return Err(key_message("dimension '", key, "' missing numeric 'weight'"));
    }
    let name = match item.get("name") {
        Some(nv) => match nv.as_str() {
            Some(n) => String::from_str(n),
            None => {
                return Err(key_message("dimension '", key, "' missing string 'name'"));
            },
        },
        None => {
            return Err(key_message("dimension '", key, "' missing string 'name'"));
        },
    };
    let description = match read_description(item) {
        Some(d) => d,
        None => {
            return Err(
                key_message("dimension '", key, "' missing string 'description' or 'descrtiption'"),
            );
        },
    };
    if !weight.is_positive_number() {
        return Err(key_message("dimension '", key, "' weight must be positive"));
    }
    Ok(DimensionText { key: String::from_str(key), name, description })
}

/// Reads the dimensions file: for every member of its `dimensional_scores` object, in order,
/// the key, the display name and the description. The weights themselves, and the check that
/// they add up to one, are left to the caller.
pub fn read_relevance_dimensions(doc: &JsonValue) -> (res: Result<Vec<DimensionText>, String>)
    ensures
        match res {
            Ok(v) => relevance_dimensions_spec(*doc) == Ok::<Seq<DimensionTextView>, Seq<char>>(
                v@.map_values(|d: DimensionText| dimension_text_view(d)),
            ),
            Err(e) => relevance_dimensions_spec(*doc) == Err::<Seq<DimensionTextView>, Seq<char>>(
                e@,
            ),
        },
{
    let members = match doc.get("dimensional_scores") {
        Some(obj) => match obj.as_object() {
            Some(m) => m,
            None => {
                return Err(String::from_str("missing or invalid 'dimensional_scores' object"));
            },
        },
        None => {
            return Err(String::from_str("missing or invalid 'dimensional_scores' object"));
        },
    };
    if members.len() == 0 {
        return Err(String::from_str("relevance dimensions cannot be empty"));
    }
    let mut dims: Vec<DimensionText> = Vec::new();
    let n = members.len();
    assert(dims@.map_values(|d: DimensionText| dimension_text_view(d)) =~= Seq::<
        DimensionTextView,
    >::empty());
    for k in 0..n
        invariant
            n == members.len(),
            n > 0,
            json_get(*doc, "dimensional_scores"@) matches Some(obj) && json_as_object(obj)
                == Some(members@),
            dimension_entries_upto(members@, k as int) == Ok::<
                Seq<DimensionTextView>,
                Seq<char>,
            >(dims@.map_values(|d: DimensionText| dimension_text_view(d))),
    {
        match read_dimension_entry(&members[k]) {
            Ok(d) => {
                let ghost before = dims@;
                dims.push(d);
                assert(dims@.map_values(|d: DimensionText| dimension_text_view(d)) =~= before.map_values(
                    |d: DimensionText| dimension_text_view(d),
                ).push(dimension_text_view(d)));
            },
            Err(e) => {
                proof {
                    lemma_entries_error_persists(members@, k + 1, n as int);
                }
                return Err(e);
            },
        }
    }
    Ok(dims)
}

proof fn lemma_outcomes_upto_bounded(dims: Seq<DimensionKey>, members: Seq<JsonMember>, k: int)
    requires
        0 <= k <= dims.len(),
    ensures
        dimension_outcomes_upto(dims, members, k) matches Ok(v) ==> v.len() == k && forall|i: int|
            0 <= i < k ==> (#[trigger] v[i]).2 <= 10 && v[i].0 == dims[i].key@,
    decreases k,
{
    if k > 0 {
        lemma_outcomes_upto_bounded(dims, members, k - 1);
    }
}

/// An accepted answer gives every dimension a score in `0..=10`, in the order of the
/// dimensions.
pub proof fn lemma_scores_in_range(dims: Seq<DimensionKey>, response: JsonValue)
    ensures
        relevance_scores_spec(dims, response) matches Ok(v) ==> v.len() == dims.len() && forall|
            i: int,
        | 0 <= i < dims.len() ==> (#[trigger] v[i]).2 <= 10 && v[i].0 == dims[i].key@,
{
    lemma_outcomes_upto_bounded(dims, Seq::empty(), 0);
    match json_get(response, "dimensional_scores"@) {
        Some(obj) => match json_as_object(obj) {
            Some(members) => lemma_outcomes_upto_bounded(dims, members, dims.len() as int),
            None => {},
        },
        None => {},
    }
}

/// The answer's item for a dimension is an object with the integer `score` (in `0..=10`) and
/// the string `reason` given.
pub open spec fn answers_with(item: Option<JsonValue>, score: u64, reason: Seq<char>) -> bool {
    &&& item matches Some(it)
    &&& json_get(it, "score"@) == Some(JsonValue::UInt(score))
    &&& score <= 10
    &&& json_get(it, "reason"@) matches Some(JsonValue::Str(r))
    &&& r@ == reason
}

/// An answer in which every dimension has an integer score in `0..=10` and a string reason is
/// accepted, and each dimension is read, in the order of the dimensions, with exactly the score
/// and reason the answer gives it (a score of 0 included).
pub proof fn lemma_valid_answer_is_read(
    dims: Seq<DimensionKey>,
    response: JsonValue,
    members: Seq<JsonMember>,
    scores: Seq<u64>,
    reasons: Seq<Seq<char>>,
)
    requires
        json_get(response, "dimensional_scores"@) matches Some(JsonValue::Object(m)) && m@ == members,
        scores.len() == dims.len(),
        reasons.len() == dims.len(),
        forall|i: int|
            0 <= i < dims.len() ==> answers_with(
                #[trigger] member_lookup(members, dims[i].key@),
                scores[i],
                reasons[i],
            ),
    ensures
        relevance_scores_spec(dims, response) matches Ok(v) && v.len() == dims.len() && forall|i: int|
            0 <= i < dims.len() ==> #[trigger] v[i] == (
                dims[i].key@,
                dims[i].name@,
                scores[i] as u8,
                reasons[i],
            ),
{
    lemma_valid_outcomes_upto(dims, members, scores, reasons, dims.len() as int);
}

proof fn lemma_valid_outcomes_upto(
    dims: Seq<DimensionKey>,
    members: Seq<JsonMember>,
    scores: Seq<u64>,
    reasons: Seq<Seq<char>>,
    k: int,
)
    requires
        0 <= k <= dims.len(),
        scores.len() == dims.len(),
        reasons.len() == dims.len(),
        forall|i: int|
            0 <= i < dims.len() ==> answers_with(
                #[trigger] member_lookup(members, dims[i].key@),
                scores[i],
                reasons[i],
            ),
    ensures
        dimension_outcomes_upto(dims, members, k) matches Ok(v) && v.len() == k && forall|i: int|
            0 <= i < k ==> #[trigger] v[i] == (dims[i].key@, dims[i].name@, scores[i] as u8, reasons[i]),
    decreases k,
{
    if k > 0 {
        lemma_valid_outcomes_upto(dims, members, scores, reasons, k - 1);
        let i = k - 1;
        assert(answers_with(member_lookup(members, dims[i].key@), scores[i], reasons[i]));
    }
}

/// Dimension lines are listed by their numeric score, highest first: a line with a higher
/// score comes before one with a lower score, never after it; lines with equal scores are
/// listed by key.
pub proof fn lemma_listed_by_score(a: DimensionLine, b: DimensionLine)
    ensures
        a.score > b.score ==> listed_before(a, b),
        a.score < b.score ==> !listed_before(a, b),
        a.score == b.score ==> (listed_before(a, b) <==> text_less(a.key@, b.key@)),
{
}

/// The lines that `sort_dimension_lines` gives have non-increasing scores.
pub proof fn lemma_sorted_lines_by_score(s: Seq<DimensionLine>)
    requires
        lines_sorted(s),
    ensures
        forall|i: int, j: int| 0 <= i < j < s.len() ==> #[trigger] s[i].score >= #[trigger] s[j].score,
{
    assert forall|i: int, j: int| 0 <= i < j < s.len() implies #[trigger] s[i].score
        >= #[trigger] s[j].score by {
        lemma_listed_by_score(s[j], s[i]);
        assert(!listed_before(s[j], s[i]));
    }
}

} // verus!
