//! A YAML document as plain values, and its mathematical view.
//!
//! Numbers and tags are carried as `serde_yaml`'s own values: nothing here reads them.
use vstd::prelude::*;
use crate::text::same_text;
use serde_yaml::value::TaggedValue;
use serde_yaml::Value;

verus! {

#[verifier::external_type_specification]
#[verifier::external_body]
pub struct ExYamlNumber(serde_yaml::Number);

#[verifier::external_type_specification]
#[verifier::external_body]
pub struct ExYamlTag(serde_yaml::value::Tag);

/// A YAML value, as `serde_yaml::Value` holds it.
#[derive(Debug)]
pub enum YamlNode {
    Null,
    Bool(bool),
    Number(serde_yaml::Number),
    Str(String),
    Sequence(Vec<YamlNode>),
    /// The entries of a mapping, in their order.
    Mapping(Vec<YamlEntry>),
    Tagged(serde_yaml::value::Tag, Box<YamlNode>),
}

/// One entry of a YAML mapping.
#[derive(Debug)]
pub struct YamlEntry {
    pub key: YamlNode,
    pub value: YamlNode,
}

/// The mathematical value of a YAML node: texts as character sequences, sequences and
/// mappings as sequences.
pub enum YamlView {
    Null,
    Bool(bool),
    Number(serde_yaml::Number),
    Str(Seq<char>),
    Sequence(Seq<YamlView>),
    Mapping(Seq<(YamlView, YamlView)>),
    Tagged(serde_yaml::value::Tag, Box<YamlView>),
}

/// The view of a node.
pub open spec fn yaml_view(n: YamlNode) -> YamlView
    decreases n,
{
    match n {
        YamlNode::Null => YamlView::Null,
        YamlNode::Bool(b) => YamlView::Bool(b),
        YamlNode::Number(x) => YamlView::Number(x),
        YamlNode::Str(s) => YamlView::Str(s@),
        YamlNode::Sequence(items) => YamlView::Sequence(
            Seq::new(
                items@.len(),
                |i: int|
                    if 0 <= i < items@.len() {
                        yaml_view(items@[i])
                    } else {
                        YamlView::Null
                    },
            ),
        ),
        YamlNode::Mapping(entries) => YamlView::Mapping(
            Seq::new(
                entries@.len(),
                |i: int|
                    if 0 <= i < entries@.len() {
                        (yaml_view(entries@[i].key), yaml_view(entries@[i].value))
                    } else {
                        (YamlView::Null, YamlView::Null)
                    },
            ),
        ),
        YamlNode::Tagged(t, b) => YamlView::Tagged(t, Box::new(yaml_view(*b))),
    }
}

/// The views of a sequence of nodes.
pub open spec fn items_view(items: Seq<YamlNode>) -> Seq<YamlView> {
    Seq::new(items.len(), |i: int| yaml_view(items[i]))
}

/// The views of the entries of a mapping.
pub open spec fn entries_view(entries: Seq<YamlEntry>) -> Seq<(YamlView, YamlView)> {
    Seq::new(entries.len(), |i: int| (yaml_view(entries[i].key), yaml_view(entries[i].value)))
}

/// The value below all tags of a value (what `serde_yaml` reads through tags).
pub open spec fn untag_view(v: YamlView) -> YamlView
    decreases v,
{
    match v {
        YamlView::Tagged(_, b) => untag_view(*b),
        _ => v,
    }
}

/// The value with the same tags as `v` around `core`.
pub open spec fn retag_view(v: YamlView, core: YamlView) -> YamlView
    decreases v,
{
    match v {
        YamlView::Tagged(t, b) => YamlView::Tagged(t, Box::new(retag_view(*b, core))),
        _ => core,
    }
}

/// Entry `i` is the first whose key is the text `name`.
pub open spec fn is_first_key(entries: Seq<(YamlView, YamlView)>, name: Seq<char>, i: int) -> bool {
    &&& 0 <= i < entries.len()
    &&& entries[i].0 == YamlView::Str(name)
    &&& forall|j: int| 0 <= j < i ==> (#[trigger] entries[j]).0 != YamlView::Str(name)
}

/// The position of the entry whose key is the text `name` (the first, should there be more).
pub open spec fn key_position(entries: Seq<(YamlView, YamlView)>, name: Seq<char>) -> Option<int> {
    if exists|i: int| is_first_key(entries, name, i) {
        Some(choose|i: int| is_first_key(entries, name, i))
    } else {
        None
    }
}

/// At most one entry is the first with a given key.
pub proof fn lemma_first_key_unique(entries: Seq<(YamlView, YamlView)>, name: Seq<char>, i: int, k: int)
    requires
        is_first_key(entries, name, i),
        is_first_key(entries, name, k),
    ensures
        i == k,
{
    if i < k {
        assert(entries[i].0 != YamlView::Str(name));
    }
    if k < i {
        assert(entries[k].0 != YamlView::Str(name));
    }
}

/// A key that occurs has a position: the first entry with that key.
pub proof fn lemma_key_position_found(entries: Seq<(YamlView, YamlView)>, name: Seq<char>, i: int)
    requires
        0 <= i < entries.len(),
        entries[i].0 == YamlView::Str(name),
    ensures
        key_position(entries, name) matches Some(k) && is_first_key(entries, name, k) && k <= i,
    decreases i,
{
    if exists|j: int| 0 <= j < i && entries[j].0 == YamlView::Str(name) {
        let j = choose|j: int| 0 <= j < i && entries[j].0 == YamlView::Str(name);
        lemma_key_position_found(entries, name, j);
    } else {
        assert(is_first_key(entries, name, i));
    }
    let k = choose|k: int| is_first_key(entries, name, k);
    if i < k {
        assert(entries[i].0 != YamlView::Str(name));
    }
}

/// The position of a key is that of the first entry with it; without one, no entry has it.
pub proof fn lemma_key_position(entries: Seq<(YamlView, YamlView)>, name: Seq<char>)
    ensures
        key_position(entries, name) matches Some(k) ==> is_first_key(entries, name, k),
        key_position(entries, name) is None ==> forall|j: int|
            0 <= j < entries.len() ==> (#[trigger] entries[j]).0 != YamlView::Str(name),
{
    if key_position(entries, name) is None {
        assert forall|j: int| 0 <= j < entries.len() implies (#[trigger] entries[j]).0
            != YamlView::Str(name) by {
            if entries[j].0 == YamlView::Str(name) {
                lemma_key_position_found(entries, name, j);
            }
        }
    }
}

/// Two entry lists with the same keys have their keys at the same positions.
pub proof fn lemma_key_position_same_keys(
    a: Seq<(YamlView, YamlView)>,
    b: Seq<(YamlView, YamlView)>,
    name: Seq<char>,
)
    requires
        a.len() == b.len(),
        forall|j: int| 0 <= j < a.len() ==> (#[trigger] a[j]).0 == b[j].0,
    ensures
        key_position(a, name) == key_position(b, name),
{
    lemma_key_position(a, name);
    lemma_key_position(b, name);
    if let Some(k) = key_position(a, name) {
        assert(b[k].0 == a[k].0);
        assert forall|j: int| 0 <= j < k implies (#[trigger] b[j]).0 != YamlView::Str(name) by {
            assert(a[j].0 == b[j].0);
        }
        assert(is_first_key(b, name, k));
        lemma_key_position_found(b, name, k);
        let kb = key_position(b, name)->0;
        lemma_first_key_unique(b, name, k, kb);
    } else if let Some(k) = key_position(b, name) {
        assert(a[k].0 == b[k].0);
        lemma_key_position_found(a, name, k);
    }
}

/// Below the tags of a retagged value lies the new core.
pub proof fn lemma_untag_retag(v: YamlView, core: YamlView)
    requires
        !(core is Tagged),
    ensures
        untag_view(retag_view(v, core)) == core,
    decreases v,
{
    if let YamlView::Tagged(t, b) = v {
        lemma_untag_retag(*b, core);
    }
}

/// Retagging twice keeps only the second core.
pub proof fn lemma_retag_retag(v: YamlView, c1: YamlView, c2: YamlView)
    requires
        !(c1 is Tagged),
    ensures
        retag_view(retag_view(v, c1), c2) == retag_view(v, c2),
    decreases v,
{
    if let YamlView::Tagged(t, b) = v {
        lemma_retag_retag(*b, c1, c2);
    }
}

/// Retagging a value with its own core gives it back.
pub proof fn lemma_retag_own_core(v: YamlView)
    ensures
        retag_view(v, untag_view(v)) == v,
    decreases v,
{
    if let YamlView::Tagged(t, b) = v {
        lemma_retag_own_core(*b);
    }
}

/// The node below all tags of a node.
pub fn untag_ref(n: &YamlNode) -> (res: &YamlNode)
    ensures
        yaml_view(*res) == untag_view(yaml_view(*n)),
        !(*res is Tagged),
    decreases n,
{
    match n {
        YamlNode::Tagged(_, b) => untag_ref(b),
        _ => n,
    }
}

/// The key of the entry is the text `name`.
pub fn key_is_text(key: &YamlNode, name: &str) -> (res: bool)
    ensures
        res == (yaml_view(*key) == YamlView::Str(name@)),
{
    match key {
        YamlNode::Str(s) => same_text(s.as_str(), name),
        _ => false,
    }
}

/// Finds the position of the entry whose key is the text `name`.
pub fn find_key(entries: &Vec<YamlEntry>, name: &str) -> (res: Option<usize>)
    ensures
        match res {
            Some(i) => key_position(entries_view(entries@), name@) == Some(i as int),
            None => key_position(entries_view(entries@), name@) is None,
        },
{
    let ghost ev = entries_view(entries@);
    let n = entries.len();
    for i in 0..n
        invariant
            n == entries.len(),
            ev == entries_view(entries@),
            forall|j: int| 0 <= j < i ==> (#[trigger] ev[j]).0 != YamlView::Str(name@),
    {
        if key_is_text(&entries[i].key, name) {
            proof {
                assert(is_first_key(ev, name@, i as int));
                lemma_key_position_found(ev, name@, i as int);
                let k = key_position(ev, name@)->0;
                lemma_first_key_unique(ev, name@, i as int, k);
            }
            return Some(i);
        }
    }
    proof {
        lemma_key_position(ev, name@);
        if let Some(k) = key_position(ev, name@) {
            assert(ev[k].0 != YamlView::Str(name@));
        }
    }
    None
}

#[verifier::external_type_specification]
#[verifier::external_body]
pub struct ExYamlValue(serde_yaml::Value);

/// What `serde_yaml::from_str::<Value>` reads from a text: the document, or the text of its
/// error.
pub uninterp spec fn yaml_parse(raw: Seq<char>) -> Result<YamlView, Seq<char>>;

/// What `serde_yaml::to_string` writes for a document: its text, or the text of its error.
pub uninterp spec fn yaml_text(doc: YamlView) -> Result<Seq<char>, Seq<char>>;

/// The model node of a `serde_yaml` value, variant for variant (mapping entries in their
/// order). It is the conversion of `parse_yaml`, kept apart because values nest.
#[verifier::external_body]
fn node_of(v: Value) -> YamlNode {
    match v {
        Value::Null => YamlNode::Null,
        Value::Bool(b) => YamlNode::Bool(b),
        Value::Number(n) => YamlNode::Number(n),
        Value::String(s) => YamlNode::Str(s),
        Value::Sequence(items) => YamlNode::Sequence(items.into_iter().map(node_of).collect()),
        Value::Mapping(m) => YamlNode::Mapping(m.into_iter().map(|(k, v)| YamlEntry { key: node_of(k), value: node_of(v) }).collect()),
        Value::Tagged(t) => YamlNode::Tagged(t.tag, Box::new(node_of(t.value))),
    }
}

/// The `serde_yaml` value of a model node, variant for variant. It is the conversion of
/// `print_yaml`, kept apart because values nest.
#[verifier::external_body]
fn value_of(n: YamlNode) -> Value {
    match n {
        YamlNode::Null => Value::Null,
        YamlNode::Bool(b) => Value::Bool(b),
        YamlNode::Number(x) => Value::Number(x),
        YamlNode::Str(s) => Value::String(s),
        YamlNode::Sequence(items) => Value::Sequence(items.into_iter().map(value_of).collect()),
        YamlNode::Mapping(es) => Value::Mapping(es.into_iter().map(|e| (value_of(e.key), value_of(e.value))).collect()),
        YamlNode::Tagged(tag, b) => Value::Tagged(Box::new(TaggedValue { tag, value: value_of(*b) })),
    }
}

/// `serde_yaml::from_str::<Value>`: parses a YAML text into a document, or gives the text of
/// the parse error.
#[verifier::external_body]
pub fn parse_yaml(raw: &str) -> (res: Result<YamlNode, String>)
    ensures
        match res {
            Ok(n) => yaml_parse(raw@) == Ok::<YamlView, Seq<char>>(yaml_view(n)),
            Err(e) => yaml_parse(raw@) == Err::<YamlView, Seq<char>>(e@),
        },
{
    match serde_yaml::from_str::<Value>(raw) {
        Ok(v) => Ok(node_of(v)),
        Err(err) => Err(err.to_string()),
    }
}

/// `serde_yaml::to_string`: the YAML text of a document, or the text of the error.
#[verifier::external_body]
pub fn print_yaml(doc: YamlNode) -> (res: Result<String, String>)
    ensures
        match res {
            Ok(t) => yaml_text(yaml_view(doc)) == Ok::<Seq<char>, Seq<char>>(t@),
            Err(e) => yaml_text(yaml_view(doc)) == Err::<Seq<char>, Seq<char>>(e@),
        },
{
    serde_yaml::to_string(&value_of(doc)).map_err(|err| err.to_string())
}

} // verus!
