//! Extraction of paper entries from an arXiv catchup page, and the request rules of the crawler.
//!
//! `scraper` parses the page and selects its parts; the extraction reads the plain values it
//! gives: for each `<dt>` the targets of its abstract links, and for each `<dd>` the text pieces
//! of its title and author links and the nodes of its abstract paragraph.
use vstd::prelude::*;
use scraper::{Html, Selector};
use crate::arxiv::ArxivPaperEntry;
use crate::text::{
    chars_of, is_normalized, lemma_normalized_shape, find_chars, has_word, has_word_exec, join_chars,
    join_spec, normalize_spaces_chars, normalize_spaces_spec, occurs_at, push_all, string_of,
    same_text, strip_prefix_chars, trim_chars, trim_spec, replace, replace_spec,
};
use vstd::utf8::encode_utf8;

verus! {

/// An element of the parsed page: its tag name and the value of the one attribute that was
/// asked for.
pub type ElementData = (String, Option<String>);

/// A node of the parsed page: its text when it is a text node, its element data when it is an
/// element (neither for a document, comment or doctype node).
pub type NodeData = (Option<String>, Option<ElementData>);

/// The `dl#articles` list of a catchup page, as the parsed page gives it: one list per
/// `<dt>`, and five parallel lists with one item per `<dd>`.
#[derive(Debug, Clone)]
pub struct ArticleListing {
    /// For each `<dt>`, for each of its `a[title='Abstract']` links, its `href`.
    pub dt_abstract_hrefs: Vec<Vec<Option<String>>>,
    /// For each `<dd>`, the text pieces of its first `div.list-title`, if there is one.
    pub dd_titles: Vec<Option<Vec<String>>>,
    /// For each `<dd>`, for each `div.list-authors a`, its text pieces.
    pub dd_authors: Vec<Vec<Vec<String>>>,
    /// For each `<dd>`, the nodes of its first `p.mathjax` in document order (the paragraph
    /// itself first), elements with their `type`.
    pub dd_abstract_nodes: Vec<Option<Vec<NodeData>>>,
    /// For each `<dd>`, for each of those nodes, its ancestors (innermost first): the element
    /// data, with the `class`, of those that are elements.
    pub dd_abstract_ancestors: Vec<Option<Vec<Vec<Option<ElementData>>>>>,
    /// For each `<dd>`, for each of those nodes, its children: the text of those that are text.
    pub dd_abstract_children: Vec<Option<Vec<Vec<Option<String>>>>>,
}

/// The identifier in a link target: what follows the first `/abs/`, without surrounding
/// white space, if that is not empty.
pub open spec fn arxiv_id_from_href_spec(href: Seq<char>) -> Option<Seq<char>> {
    let pat = "/abs/"@;
    if exists|i: int| occurs_at(href, pat, i) {
        let pos = choose|i: int| occurs_at(href, pat, i) && forall|j: int|
            0 <= j < i ==> !occurs_at(href, pat, j);
        let id = trim_spec(href.skip(pos + 5));
        if id.len() > 0 {
            Some(id)
        } else {
            None
        }
    } else {
        None
    }
}

proof fn lemma_first_occurrence_unique(s: Seq<char>, pat: Seq<char>, i: int, k: int)
    requires
        occurs_at(s, pat, i),
        forall|j: int| 0 <= j < i ==> !occurs_at(s, pat, j),
        occurs_at(s, pat, k),
        forall|j: int| 0 <= j < k ==> !occurs_at(s, pat, j),
    ensures
        i == k,
{
    if i < k {
        assert(!occurs_at(s, pat, i));
    }
    if k < i {
        assert(!occurs_at(s, pat, k));
    }
}

/// Extracts the arXiv identifier from an abstract link target such as `/abs/2501.00001`.
pub fn extract_arxiv_id_from_href(href: &str) -> (res: Option<String>)
    ensures
        match res {
            Some(id) => arxiv_id_from_href_spec(href@) == Some(id@),
            None => arxiv_id_from_href_spec(href@) is None,
        },
{
    let h = chars_of(href);
    let pat = chars_of("/abs/");
    proof {
        reveal_strlit("/abs/");
    }
    match find_chars(&h, &pat) {
        Some(pos) => {
            let ghost spos = choose|i: int| occurs_at(h@, pat@, i) && forall|j: int|
                0 <= j < i ==> !occurs_at(h@, pat@, j);
            proof {
                lemma_first_occurrence_unique(h@, pat@, pos as int, spos);
            }
            let mut rest: Vec<char> = Vec::new();
            let n = h.len();
            let mut k: usize = pos + 5;
            while k < n
                invariant
                    n == h.len(),
                    pos + 5 <= k <= n,
                    rest@ == h@.subrange(pos + 5, k as int),
                decreases n - k,
            {
                rest.push(h[k]);
                assert(h@.subrange(pos + 5, k + 1) =~= h@.subrange(pos + 5, k as int).push(
                    h@[k as int],
                ));
                k = k + 1;
            }
            assert(rest@ =~= h@.skip(pos + 5));
            let id = trim_chars(&rest);
            if id.len() > 0 {
                Some(string_of(&id))
            } else {
                None
            }
        },
        None => None,
    }
}

/// `text` without `prefix` and the white space around the rest, or `text` unchanged when
/// it does not start with `prefix`.
pub open spec fn strip_descriptor_prefix_spec(text: Seq<char>, prefix: Seq<char>) -> Seq<char> {
    if prefix.len() <= text.len() && text.take(prefix.len() as int) == prefix {
        trim_spec(text.skip(prefix.len() as int))
    } else {
        text
    }
}

/// Removes a descriptor such as `Title:` from the start of a text.
pub fn strip_descriptor_prefix(text: &str, prefix: &str) -> (res: String)
    ensures
        res@ == strip_descriptor_prefix_spec(text@, prefix@),
{
    let t = chars_of(text);
    let p = chars_of(prefix);
    match strip_prefix_chars(&t, &p) {
        Some(rest) => {
            let r = trim_chars(&rest);
            string_of(&r)
        },
        None => String::from_str(text),
    }
}

/// The class list names MathJax output (`MathJax` or `MathJax_Preview`).
pub open spec fn is_mathjax_class(class_attr: Option<String>) -> bool {
    match class_attr {
        Some(c) => has_word(c@, "MathJax"@) || has_word(c@, "MathJax_Preview"@),
        None => false,
    }
}

/// A text node under this ancestor is left out of the abstract: scripts and MathJax output.
pub open spec fn hides_text(a: Option<ElementData>) -> bool {
    match a {
        Some(e) => e.0@ == "script"@ || (e.0@ == "span"@ && is_mathjax_class(e.1)),
        None => false,
    }
}

/// Some enclosing element hides the text node.
pub open spec fn text_is_hidden(ancestors: Seq<Option<ElementData>>) -> bool {
    exists|i: int| 0 <= i < ancestors.len() && hides_text(#[trigger] ancestors[i])
}

/// The element is a TeX source script (`<script type="math/tex">`).
pub open spec fn is_tex_script(name: String, type_attr: Option<String>) -> bool {
    name@ == "script"@ && match type_attr {
        Some(t) => t@ == "math/tex"@,
        None => false,
    }
}

/// The texts of the text nodes among the children, one after the other.
pub open spec fn child_texts(children: Seq<Option<String>>) -> Seq<char>
    decreases children.len(),
{
    if children.len() == 0 {
        Seq::empty()
    } else {
        child_texts(children.drop_last()) + match children.last() {
            Some(t) => t@,
            None => Seq::empty(),
        }
    }
}

/// Item `i` of a list of lists, or the empty list when the list is shorter.
pub open spec fn list_at<T>(lists: Seq<Vec<T>>, i: int) -> Seq<T> {
    if 0 <= i < lists.len() {
        lists[i]@
    } else {
        Seq::empty()
    }
}

/// The abstract text after one more node, given its ancestors and children.
pub open spec fn abstract_step(
    out: Seq<char>,
    node: NodeData,
    ancestors: Seq<Option<ElementData>>,
    children: Seq<Option<String>>,
) -> Seq<char> {
    match node.0 {
        Some(text) => if text_is_hidden(ancestors) {
            out
        } else {
            out + text@
        },
        None => match node.1 {
            Some(e) => if is_tex_script(e.0, e.1) {
                let tex = trim_spec(child_texts(children));
                if tex.len() == 0 {
                    out
                } else {
                    let spaced = if out.len() > 0 && out.last() != ' ' {
                        out.push(' ')
                    } else {
                        out
                    };
                    spaced + "$"@ + tex + "$ "@
                }
            } else {
                out
            },
            None => out,
        },
    }
}

/// The abstract text of the first `k` nodes, before white space is normalized: visible text
/// as is, TeX sources between `$` signs.
pub open spec fn abstract_raw_spec(
    nodes: Seq<NodeData>,
    ancestors: Seq<Vec<Option<ElementData>>>,
    children: Seq<Vec<Option<String>>>,
    k: int,
) -> Seq<char>
    decreases k,
{
    if k <= 0 {
        Seq::empty()
    } else {
        abstract_step(
            abstract_raw_spec(nodes, ancestors, children, k - 1),
            nodes[k - 1],
            list_at(ancestors, k - 1),
            list_at(children, k - 1),
        )
    }
}

/// The plain-text abstract of the nodes of an abstract paragraph.
pub open spec fn plain_text_abstract_spec(
    nodes: Seq<NodeData>,
    ancestors: Seq<Vec<Option<ElementData>>>,
    children: Seq<Vec<Option<String>>>,
) -> Seq<char> {
    normalize_spaces_spec(abstract_raw_spec(nodes, ancestors, children, nodes.len() as int))
}

fn class_hides(class_attr: &Option<String>) -> (res: bool)
    ensures
        res == is_mathjax_class(*class_attr),
{
    match class_attr {
        Some(c) => {
            let cv = chars_of(c.as_str());
            let a = chars_of("MathJax");
            let b = chars_of("MathJax_Preview");
            has_word_exec(&cv, &a) || has_word_exec(&cv, &b)
        },
        None => false,
    }
}

fn is_hidden(ancestors: &Vec<Option<ElementData>>) -> (res: bool)
    ensures
        res == text_is_hidden(ancestors@),
{
    let n = ancestors.len();
    for i in 0..n
        invariant
            n == ancestors.len(),
            forall|j: int| 0 <= j < i ==> !hides_text(#[trigger] ancestors@[j]),
    {
        match &ancestors[i] {
            Some(e) => {
                let name = e.0.as_str();
                if same_text(name, "script") || (same_text(name, "span") && class_hides(&e.1)) {
                    assert(hides_text(ancestors@[i as int]));
                    return true;
                }
            },
            None => {},
        }
    }
    false
}

fn tex_script(name: &String, type_attr: &Option<String>) -> (res: bool)
    ensures
        res == is_tex_script(*name, *type_attr),
{
    if same_text(name.as_str(), "script") {
        match type_attr {
            Some(t) => same_text(t.as_str(), "math/tex"),
            None => false,
        }
    } else {
        false
    }
}

fn child_text_chars(children: &Vec<Option<String>>) -> (res: Vec<char>)
    ensures
        res@ == child_texts(children@),
{
    let mut out: Vec<char> = Vec::new();
    let n = children.len();
    for i in 0..n
        invariant
            n == children.len(),
            out@ == child_texts(children@.take(i as int)),
    {
        assert(children@.take(i + 1).drop_last() =~= children@.take(i as int));
        match &children[i] {
            Some(t) => {
                let c = chars_of(t.as_str());
                push_all(&mut out, &c);
            },
            None => {
                assert(out@ =~= child_texts(children@.take(i + 1)));
            },
        }
    }
    assert(children@.take(n as int) =~= children@);
    out
}

/// Extracts the plain text of an abstract paragraph from its nodes and, for each node, its
/// ancestors and children: visible text, and TeX sources between `$` signs, with white space
/// normalized.
pub fn extract_plain_text_abstract(
    nodes: &Vec<NodeData>,
    ancestors: &Vec<Vec<Option<ElementData>>>,
    children: &Vec<Vec<Option<String>>>,
) -> (res: String)
    ensures
        res@ == plain_text_abstract_spec(nodes@, ancestors@, children@),
{
    let mut output: Vec<char> = Vec::new();
    let n = nodes.len();
    for i in 0..n
        invariant
            n == nodes.len(),
            output@ == abstract_raw_spec(nodes@, ancestors@, children@, i as int),
    {
        let node = &nodes[i];
        match &node.0 {
            Some(text) => {
                let hidden = if i < ancestors.len() {
                    is_hidden(&ancestors[i])
                } else {
                    false
                };
                if !hidden {
                    let t = chars_of(text.as_str());
                    push_all(&mut output, &t);
                }
            },
            None => match &node.1 {
                Some(e) => {
                    if tex_script(&e.0, &e.1) {
                        let raw = if i < children.len() {
                            child_text_chars(&children[i])
                        } else {
                            Vec::new()
                        };
                        let tex = trim_chars(&raw);
                        if tex.len() > 0 {
                            let l = output.len();
                            if l > 0 && output[l - 1] != ' ' {
                                output.push(' ');
                            }
                            output.push('$');
                            push_all(&mut output, &tex);
                            output.push('$');
                            output.push(' ');
                            proof {
                                reveal_strlit("$");
                                reveal_strlit("$ ");
                            }
                            assert(output@ =~= abstract_step(
                                abstract_raw_spec(nodes@, ancestors@, children@, i as int),
                                nodes@[i as int],
                                list_at(ancestors@, i as int),
                                list_at(children@, i as int),
                            ));
                        }
                    }
                },
                None => {},
            },
        }
    }
    let r = normalize_spaces_chars(&output);
    string_of(&r)
}

/// The plain values of an extracted entry: identifier, title, authors and abstract.
pub type EntryView = (Seq<char>, Seq<char>, Seq<Seq<char>>, Seq<char>);

/// The plain values of a paper entry.
pub open spec fn entry_view(e: ArxivPaperEntry) -> EntryView {
    (e.id@, e.title@, e.authors@.map_values(|a: String| a@), e.abstract_text@)
}

/// The identifier of the first link target that holds one, or the empty text.
pub open spec fn first_arxiv_id(hrefs: Seq<Option<String>>) -> Seq<char>
    decreases hrefs.len(),
{
    if hrefs.len() == 0 {
        Seq::empty()
    } else {
        match hrefs[0] {
            Some(h) => match arxiv_id_from_href_spec(h@) {
                Some(id) => id,
                None => first_arxiv_id(hrefs.drop_first()),
            },
            None => first_arxiv_id(hrefs.drop_first()),
        }
    }
}

/// The title: its text pieces joined by spaces, white space normalized, `Title:` removed.
pub open spec fn listing_title(texts: Option<Vec<String>>) -> Seq<char> {
    match texts {
        Some(t) => strip_descriptor_prefix_spec(
            normalize_spaces_spec(join_spec(t@, " "@)),
            "Title:"@,
        ),
        None => Seq::empty(),
    }
}

/// One author's name: the text pieces of the link joined by spaces, white space normalized.
pub open spec fn author_name(texts: Vec<String>) -> Seq<char> {
    normalize_spaces_spec(join_spec(texts@, " "@))
}

/// The names of the authors, leaving out those that are empty.
pub open spec fn listing_authors(links: Seq<Vec<String>>) -> Seq<Seq<char>>
    decreases links.len(),
{
    if links.len() == 0 {
        Seq::empty()
    } else {
        let p = listing_authors(links.drop_last());
        let name = author_name(links.last());
        if name.len() > 0 {
            p.push(name)
        } else {
            p
        }
    }
}

/// The lists of an abstract paragraph, or none.
pub open spec fn node_lists<T>(lists: Option<Vec<Vec<T>>>) -> Seq<Vec<T>> {
    match lists {
        Some(v) => v@,
        None => Seq::empty(),
    }
}

/// The abstract, or the empty text when the block has no abstract paragraph.
pub open spec fn listing_abstract(
    nodes: Option<Vec<NodeData>>,
    ancestors: Option<Vec<Vec<Option<ElementData>>>>,
    children: Option<Vec<Vec<Option<String>>>>,
) -> Seq<char> {
    match nodes {
        Some(n) => plain_text_abstract_spec(n@, node_lists(ancestors), node_lists(children)),
        None => Seq::empty(),
    }
}

/// The entry of the `k`-th `<dt>`/`<dd>` pair, unless its identifier or title is empty.
pub open spec fn listing_entry(l: ArticleListing, k: int) -> Option<EntryView> {
    let id = first_arxiv_id(l.dt_abstract_hrefs@[k]@);
    let title = listing_title(l.dd_titles@[k]);
    if id.len() == 0 || title.len() == 0 {
        None
    } else {
        Some(
            (
                id,
                title,
                listing_authors(l.dd_authors@[k]@),
                listing_abstract(
                    l.dd_abstract_nodes@[k],
                    l.dd_abstract_ancestors@[k],
                    l.dd_abstract_children@[k],
                ),
            ),
        )
    }
}

/// The entries of the first `k` pairs, in page order.
pub open spec fn listing_entries_upto(l: ArticleListing, k: int) -> Seq<EntryView>
    decreases k,
{
    if k <= 0 {
        Seq::empty()
    } else {
        let p = listing_entries_upto(l, k - 1);
        match listing_entry(l, k - 1) {
            Some(e) => p.push(e),
            None => p,
        }
    }
}

/// The smaller of two numbers.
pub open spec fn min_len(a: int, b: int) -> int {
    if a <= b {
        a
    } else {
        b
    }
}

/// The number of `<dt>`/`<dd>` pairs: the shortest of the lists.
pub open spec fn listing_pairs(l: ArticleListing) -> int {
    min_len(
        min_len(
            min_len(l.dt_abstract_hrefs@.len() as int, l.dd_titles@.len() as int),
            min_len(l.dd_authors@.len() as int, l.dd_abstract_nodes@.len() as int),
        ),
        min_len(l.dd_abstract_ancestors@.len() as int, l.dd_abstract_children@.len() as int),
    )
}

/// The entries of a page: one per `<dt>`/`<dd>` pair with an identifier and a title;
/// none when the page has no article list.
pub open spec fn listing_entries(listing: Option<ArticleListing>) -> Seq<EntryView> {
    match listing {
        Some(l) => listing_entries_upto(l, listing_pairs(l)),
        None => Seq::empty(),
    }
}

fn first_id(hrefs: &Vec<Option<String>>) -> (res: String)
    ensures
        res@ == first_arxiv_id(hrefs@),
{
    let n = hrefs.len();
    let mut i: usize = 0;
    assert(hrefs@.skip(0) =~= hrefs@);
    while i < n
        invariant
            n == hrefs.len(),
            i <= n,
            first_arxiv_id(hrefs@) == first_arxiv_id(hrefs@.skip(i as int)),
        decreases n - i,
    {
        assert(hrefs@.skip(i as int).drop_first() =~= hrefs@.skip(i + 1));
        match &hrefs[i] {
            Some(h) => match extract_arxiv_id_from_href(h.as_str()) {
                Some(id) => {
                    return id;
                },
                None => {},
            },
            None => {},
        }
        i = i + 1;
    }
    String::new()
}

fn title_of(texts: &Option<Vec<String>>) -> (res: String)
    ensures
        res@ == listing_title(*texts),
{
    match texts {
        Some(t) => {
            let joined = join_chars(t, " ");
            let norm = normalize_spaces_chars(&joined);
            let s = string_of(&norm);
            strip_descriptor_prefix(s.as_str(), "Title:")
        },
        None => String::new(),
    }
}

fn authors_of(links: &Vec<Vec<String>>) -> (res: Vec<String>)
    ensures
        res@.map_values(|a: String| a@) == listing_authors(links@),
{
    let mut out: Vec<String> = Vec::new();
    let n = links.len();
    for i in 0..n
        invariant
            n == links.len(),
            out@.map_values(|a: String| a@) == listing_authors(links@.take(i as int)),
    {
        assert(links@.take(i + 1).drop_last() =~= links@.take(i as int));
        let joined = join_chars(&links[i], " ");
        let name = normalize_spaces_chars(&joined);
        if name.len() > 0 {
            let ghost before = out@;
            out.push(string_of(&name));
            assert(out@.map_values(|a: String| a@) =~= before.map_values(|a: String| a@).push(
                name@,
            ));
        }
    }
    assert(links@.take(n as int) =~= links@);
    out
}

fn abstract_of(
    nodes: &Option<Vec<NodeData>>,
    ancestors: &Option<Vec<Vec<Option<ElementData>>>>,
    children: &Option<Vec<Vec<Option<String>>>>,
) -> (res: String)
    ensures
        res@ == listing_abstract(*nodes, *ancestors, *children),
{
    let no_ancestors: Vec<Vec<Option<ElementData>>> = Vec::new();
    let no_children: Vec<Vec<Option<String>>> = Vec::new();
    let a = match ancestors {
        Some(v) => v,
        None => &no_ancestors,
    };
    let c = match children {
        Some(v) => v,
        None => &no_children,
    };
    assert(a@ == node_lists(*ancestors));
    assert(c@ == node_lists(*children));
    match nodes {
        Some(n) => extract_plain_text_abstract(n, a, c),
        None => String::new(),
    }
}

/// Extracts the paper entries of a catchup page's article list.
pub fn extract_entries_from_listing(listing: &Option<ArticleListing>) -> (res: Vec<ArxivPaperEntry>)
    ensures
        res@.map_values(|e: ArxivPaperEntry| entry_view(e)) == listing_entries(*listing),
{
    let mut entries: Vec<ArxivPaperEntry> = Vec::new();
    match listing {
        None => {
            assert(entries@.map_values(|e: ArxivPaperEntry| entry_view(e)) =~= Seq::<
                EntryView,
            >::empty());
            entries
        },
        Some(l) => {
            let n1 = if l.dt_abstract_hrefs.len() <= l.dd_titles.len() {
                l.dt_abstract_hrefs.len()
            } else {
                l.dd_titles.len()
            };
            let n2 = if l.dd_authors.len() <= l.dd_abstract_nodes.len() {
                l.dd_authors.len()
            } else {
                l.dd_abstract_nodes.len()
            };
            let n3 = if l.dd_abstract_ancestors.len() <= l.dd_abstract_children.len() {
                l.dd_abstract_ancestors.len()
            } else {
                l.dd_abstract_children.len()
            };
            let n12 = if n1 <= n2 {
                n1
            } else {
                n2
            };
            let n = if n12 <= n3 {
                n12
            } else {
                n3
            };
            for k in 0..n
                invariant
                    n == listing_pairs(*l),
                    n <= l.dt_abstract_hrefs@.len(),
                    n <= l.dd_titles@.len(),
                    n <= l.dd_authors@.len(),
                    n <= l.dd_abstract_nodes@.len(),
                    n <= l.dd_abstract_ancestors@.len(),
                    n <= l.dd_abstract_children@.len(),
                    entries@.map_values(|e: ArxivPaperEntry| entry_view(e))
                        == listing_entries_upto(*l, k as int),
            {
                let id = first_id(&l.dt_abstract_hrefs[k]);
                let title = title_of(&l.dd_titles[k]);
                let authors = authors_of(&l.dd_authors[k]);
                let abstract_text = abstract_of(
                    &l.dd_abstract_nodes[k],
                    &l.dd_abstract_ancestors[k],
                    &l.dd_abstract_children[k],
                );
                if id.as_str().is_empty() || title.as_str().is_empty() {
                } else {
                    let ghost before = entries@;
                    let e = ArxivPaperEntry::new(id, title, authors, abstract_text);
                    entries.push(e);
                    assert(entries@.map_values(|e: ArxivPaperEntry| entry_view(e)) =~= before.map_values(
                        |e: ArxivPaperEntry| entry_view(e),
                    ).push(entry_view(e)));
                }
            }
            entries
        },
    }
}

/// What the parsed page gives for an attribute: within the first match of `list`, for each
/// match of `item`, for each match of `sub` within that, the value of the attribute `attr`.
pub uninterp spec fn html_attr_lists(
    raw: Seq<char>,
    list: Seq<char>,
    item: Seq<char>,
    sub: Seq<char>,
    attr: Seq<char>,
) -> Option<Vec<Vec<Option<String>>>>;

/// What the parsed page gives for a first block's text: within the first match of `list`,
/// for each match of `item`, the text pieces of its first match of `sub`.
pub uninterp spec fn html_first_texts(
    raw: Seq<char>,
    list: Seq<char>,
    item: Seq<char>,
    sub: Seq<char>,
) -> Option<Vec<Option<Vec<String>>>>;

/// What the parsed page gives for texts: within the first match of `list`, for each match of
/// `item`, for each match of `sub` within that, its text pieces.
pub uninterp spec fn html_all_texts(
    raw: Seq<char>,
    list: Seq<char>,
    item: Seq<char>,
    sub: Seq<char>,
) -> Option<Vec<Vec<Vec<String>>>>;

/// What the parsed page gives for a first block's nodes: within the first match of `list`, for
/// each match of `item`, the nodes under its first match of `sub` (that match first).
pub uninterp spec fn html_first_descendants(
    raw: Seq<char>,
    list: Seq<char>,
    item: Seq<char>,
    sub: Seq<char>,
    attr: Seq<char>,
) -> Option<Vec<Option<Vec<NodeData>>>>;

/// As `html_first_descendants`, but for each node its ancestors, innermost first: the element
/// data of those that are elements.
pub uninterp spec fn html_first_descendant_ancestors(
    raw: Seq<char>,
    list: Seq<char>,
    item: Seq<char>,
    sub: Seq<char>,
    attr: Seq<char>,
) -> Option<Vec<Option<Vec<Vec<Option<ElementData>>>>>>;

/// As `html_first_descendants`, but for each node its children: the text of those that are
/// text.
pub uninterp spec fn html_first_descendant_children(
    raw: Seq<char>,
    list: Seq<char>,
    item: Seq<char>,
    sub: Seq<char>,
) -> Option<Vec<Option<Vec<Vec<Option<String>>>>>>;

/// `scraper`: parses the page (`Html::parse_document`) and selects, within the first match of
/// `list`, each match of `item`, then each match of `sub` in it, and reads its attribute `attr`.
/// Nothing when a selector does not parse or nothing matches `list`.
#[verifier::external_body]
fn scraper_attr_lists(raw: &str, list: &str, item: &str, sub: &str, attr: &str) -> (res: Option<
    Vec<Vec<Option<String>>>,
>)
    ensures
        res == html_attr_lists(raw@, list@, item@, sub@, attr@),
{
    let (l, i, s) = (Selector::parse(list).ok()?, Selector::parse(item).ok()?, Selector::parse(sub).ok()?);
    let doc = Html::parse_document(raw);
    let first = doc.select(&l).next()?;
    Some(first.select(&i).map(|x| x.select(&s).map(|y| y.value().attr(attr).map(String::from)).collect()).collect())
}

/// `scraper`: as `scraper_attr_lists`, but the text pieces (`ElementRef::text`) of the first
/// match of `sub` in each `item`.
#[verifier::external_body]
fn scraper_first_texts(raw: &str, list: &str, item: &str, sub: &str) -> (res: Option<
    Vec<Option<Vec<String>>>,
>)
    ensures
        res == html_first_texts(raw@, list@, item@, sub@),
{
    let (l, i, s) = (Selector::parse(list).ok()?, Selector::parse(item).ok()?, Selector::parse(sub).ok()?);
    let doc = Html::parse_document(raw);
    let first = doc.select(&l).next()?;
    Some(first.select(&i).map(|x| x.select(&s).next().map(|y| y.text().map(String::from).collect())).collect())
}

/// `scraper`: as `scraper_attr_lists`, but the text pieces (`ElementRef::text`) of each match of
/// `sub` in each `item`.
#[verifier::external_body]
fn scraper_all_texts(raw: &str, list: &str, item: &str, sub: &str) -> (res: Option<
    Vec<Vec<Vec<String>>>,
>)
    ensures
        res == html_all_texts(raw@, list@, item@, sub@),
{
    let (l, i, s) = (Selector::parse(list).ok()?, Selector::parse(item).ok()?, Selector::parse(sub).ok()?);
    let doc = Html::parse_document(raw);
    let first = doc.select(&l).next()?;
    Some(first.select(&i).map(|x| x.select(&s).map(|y| y.text().map(String::from).collect()).collect()).collect())
}

/// `scraper`: as `scraper_attr_lists`, but the nodes under the first match of `sub` in each
/// `item` (`descendants`, that match first): the text of a text node (`Node::as_text`), the
/// name and attribute `attr` of an element (`Node::as_element`).
#[verifier::external_body]
fn scraper_first_descendants(raw: &str, list: &str, item: &str, sub: &str, attr: &str) -> (res:
    Option<Vec<Option<Vec<NodeData>>>>)
    ensures
        res == html_first_descendants(raw@, list@, item@, sub@, attr@),
{
    let (l, i, s) = (Selector::parse(list).ok()?, Selector::parse(item).ok()?, Selector::parse(sub).ok()?);
    let doc = Html::parse_document(raw);
    let first = doc.select(&l).next()?;
    Some(first.select(&i).map(|x| x.select(&s).next().map(|y| y.descendants().map(|d| (d.value().as_text().map(|t| t.to_string()), d.value().as_element().map(|e| (e.name().to_string(), e.attr(attr).map(String::from))))).collect())).collect())
}

/// `scraper`: as `scraper_first_descendants`, but for each node its ancestors (`ancestors`,
/// innermost first), with the name and attribute `attr` of those that are elements.
#[verifier::external_body]
fn scraper_first_descendant_ancestors(raw: &str, list: &str, item: &str, sub: &str, attr: &str) -> (res:
    Option<Vec<Option<Vec<Vec<Option<ElementData>>>>>>)
    ensures
        res == html_first_descendant_ancestors(raw@, list@, item@, sub@, attr@),
{
    let (l, i, s) = (Selector::parse(list).ok()?, Selector::parse(item).ok()?, Selector::parse(sub).ok()?);
    let doc = Html::parse_document(raw);
    let first = doc.select(&l).next()?;
    Some(first.select(&i).map(|x| x.select(&s).next().map(|y| y.descendants().map(|d| d.ancestors().map(|a| a.value().as_element().map(|e| (e.name().to_string(), e.attr(attr).map(String::from)))).collect()).collect())).collect())
}

/// `scraper`: as `scraper_first_descendants`, but for each node its children (`children`), with
/// the text of those that are text.
#[verifier::external_body]
fn scraper_first_descendant_children(raw: &str, list: &str, item: &str, sub: &str) -> (res:
    Option<Vec<Option<Vec<Vec<Option<String>>>>>>)
    ensures
        res == html_first_descendant_children(raw@, list@, item@, sub@),
{
    let (l, i, s) = (Selector::parse(list).ok()?, Selector::parse(item).ok()?, Selector::parse(sub).ok()?);
    let doc = Html::parse_document(raw);
    let first = doc.select(&l).next()?;
    Some(first.select(&i).map(|x| x.select(&s).next().map(|y| y.descendants().map(|d| d.children().map(|c| c.value().as_text().map(|t| t.to_string())).collect()).collect())).collect())
}

/// The article list of a catchup page as the parsed page gives it: the `dl#articles` list,
/// with the abstract links (`a[title='Abstract']`) of each `<dt>`, and the title
/// (`div.list-title`), author links (`div.list-authors a`) and abstract paragraph
/// (`p.mathjax`) of each `<dd>`; none when the page has no such list.
pub open spec fn catchup_listing(raw: Seq<char>) -> Option<ArticleListing> {
    let list = "dl#articles"@;
    let abs = "p.mathjax"@;
    match (
        html_attr_lists(raw, list, "dt"@, "a[title='Abstract']"@, "href"@),
        html_first_texts(raw, list, "dd"@, "div.list-title"@),
        html_all_texts(raw, list, "dd"@, "div.list-authors a"@),
        html_first_descendants(raw, list, "dd"@, abs, "type"@),
        html_first_descendant_ancestors(raw, list, "dd"@, abs, "class"@),
        html_first_descendant_children(raw, list, "dd"@, abs),
    ) {
        (Some(a), Some(b), Some(c), Some(d), Some(e), Some(f)) => Some(
            ArticleListing {
                dt_abstract_hrefs: a,
                dd_titles: b,
                dd_authors: c,
                dd_abstract_nodes: d,
                dd_abstract_ancestors: e,
                dd_abstract_children: f,
            },
        ),
        _ => None,
    }
}

/// Reads the article list of a raw catchup page.
pub fn catchup_listing_of(raw: &str) -> (res: Option<ArticleListing>)
    ensures
        res == catchup_listing(raw@),
{
    let list = "dl#articles";
    let abs = "p.mathjax";
    let a = scraper_attr_lists(raw, list, "dt", "a[title='Abstract']", "href");
    let b = scraper_first_texts(raw, list, "dd", "div.list-title");
    let c = scraper_all_texts(raw, list, "dd", "div.list-authors a");
    let d = scraper_first_descendants(raw, list, "dd", abs, "type");
    let e = scraper_first_descendant_ancestors(raw, list, "dd", abs, "class");
    let f = scraper_first_descendant_children(raw, list, "dd", abs);
    match (a, b, c, d, e, f) {
        (Some(a), Some(b), Some(c), Some(d), Some(e), Some(f)) => Some(
            ArticleListing {
                dt_abstract_hrefs: a,
                dd_titles: b,
                dd_authors: c,
                dd_abstract_nodes: d,
                dd_abstract_ancestors: e,
                dd_abstract_children: f,
            },
        ),
        _ => None,
    }
}

/// Extracts the paper entries of a raw catchup page: one per `<dt>`/`<dd>` pair of its
/// article list that has an identifier and a title.
pub fn extract_entries_from_html(raw: &str) -> (res: Vec<ArxivPaperEntry>)
    ensures
        res@.map_values(|e: ArxivPaperEntry| entry_view(e)) == listing_entries(catchup_listing(raw@)),
{
    let listing = catchup_listing_of(raw);
    extract_entries_from_listing(&listing)
}

/// The time to wait before a crawl operation starts, in nanoseconds: what is left of the
/// minimal interval since the previous operation started, and nothing before the first one.
pub open spec fn throttle_wait_spec(elapsed_since_last: Option<u128>, interval: u128) -> u128 {
    match elapsed_since_last {
        Some(elapsed) => if elapsed < interval {
            (interval - elapsed) as u128
        } else {
            0
        },
        None => 0,
    }
}

/// Decides how long the next crawl operation waits, from the time elapsed since the previous
/// one started (none before the first) and the minimal interval, all in nanoseconds.
pub fn throttle_wait(elapsed_since_last: Option<u128>, interval: u128) -> (res: u128)
    ensures
        res == throttle_wait_spec(elapsed_since_last, interval),
{
    match elapsed_since_last {
        Some(elapsed) => if elapsed < interval {
            interval - elapsed
        } else {
            0
        },
        None => 0,
    }
}

/// The byte stays as it is in a percent-encoded text: an ASCII letter or digit, `-`, `.`,
/// `_` or `~`.
pub open spec fn is_unreserved_byte(b: u8) -> bool {
    (48 <= b <= 57) || (65 <= b <= 90) || (97 <= b <= 122) || b == 45 || b == 46 || b == 95 || b
        == 126
}

/// An upper-case hexadecimal digit.
pub open spec fn hex_digit(d: u8) -> char {
    if d < 10 {
        (48 + d) as char
    } else {
        (55 + d) as char
    }
}

/// Percent-encoding of bytes: unreserved bytes as they are, every other byte as `%` and two
/// upper-case hexadecimal digits.
pub open spec fn percent_encode(bytes: Seq<u8>) -> Seq<char>
    decreases bytes.len(),
{
    if bytes.len() == 0 {
        Seq::empty()
    } else {
        let p = percent_encode(bytes.drop_last());
        let b = bytes.last();
        if is_unreserved_byte(b) {
            p.push(b as char)
        } else {
            p + seq!['%', hex_digit(b / 16), hex_digit(b % 16)]
        }
    }
}

/// `urlencoding::encode`: percent-encodes every byte of the UTF-8 text except ASCII letters,
/// digits, `-`, `.`, `_` and `~`, as the crate documents.
#[verifier::external_body]
fn url_encode(s: &str) -> (res: String)
    ensures
        res@ == percent_encode(encode_utf8(s@)),
{
    urlencoding::encode(s).into_owned()
}

/// The lower-case form of a text (`str::to_lowercase`, by the Unicode `Lowercase` mapping).
pub uninterp spec fn std_to_lowercase(s: Seq<char>) -> Seq<char>;

/// `str::to_lowercase`.
#[verifier::external_body]
fn lowercase(s: &str) -> (res: String)
    ensures
        res@ == std_to_lowercase(s@),
{
    s.to_lowercase()
}

/// The template of the catchup page address.
pub open spec fn catchup_url_template() -> Seq<char> {
    "https://arxiv.org/catchup/{subject_code}/{date}?abs=True"@
}

/// The address of the catchup page of a subject on a date: the subject code in lower case and
/// the percent-encoded date filled into the template.
pub open spec fn catchup_url_spec(subject_code: Seq<char>, date_text: Seq<char>) -> Seq<char> {
    replace_spec(
        replace_spec(catchup_url_template(), "{subject_code}"@, std_to_lowercase(subject_code)),
        "{date}"@,
        percent_encode(encode_utf8(date_text)),
    )
}

/// Builds the address of the catchup page of a subject (e.g. `cs`) on a date (`YYYY-MM-DD`).
pub fn catchup_url(subject_code: &str, date_text: &str) -> (res: String)
    ensures
        res@ == catchup_url_spec(subject_code@, date_text@),
{
    proof {
        reveal_strlit("{subject_code}");
        reveal_strlit("{date}");
    }
    let subject = lowercase(subject_code);
    let encoded_date = url_encode(date_text);
    let with_subject = replace(
        "https://arxiv.org/catchup/{subject_code}/{date}?abs=True",
        "{subject_code}",
        subject.as_str(),
    );
    replace(with_subject.as_str(), "{date}", encoded_date.as_str())
}

proof fn lemma_entries_upto_nonempty(l: ArticleListing, k: int)
    ensures
        forall|i: int|
            0 <= i < listing_entries_upto(l, k).len() ==> (#[trigger] listing_entries_upto(l, k)[i]).0.len()
                > 0 && listing_entries_upto(l, k)[i].1.len() > 0,
    decreases k,
{
    if k > 0 {
        lemma_entries_upto_nonempty(l, k - 1);
        let p = listing_entries_upto(l, k - 1);
        let r = listing_entries_upto(l, k);
        assert forall|i: int| 0 <= i < r.len() implies (#[trigger] r[i]).0.len() > 0 && r[i].1.len()
            > 0 by {
            if i < p.len() {
                assert(r[i] == p[i]);
            }
        }
    }
}

/// Every extracted entry has an identifier and a title.
pub proof fn lemma_entries_have_id_and_title(listing: Option<ArticleListing>)
    ensures
        forall|i: int|
            0 <= i < listing_entries(listing).len() ==> (#[trigger] listing_entries(listing)[i]).0.len()
                > 0 && listing_entries(listing)[i].1.len() > 0,
{
    match listing {
        Some(l) => lemma_entries_upto_nonempty(l, listing_pairs(l)),
        None => {},
    }
}

/// The extracted abstract has its white space normalized: single spaces between words.
pub proof fn lemma_abstract_is_normalized(
    nodes: Seq<NodeData>,
    ancestors: Seq<Vec<Option<ElementData>>>,
    children: Seq<Vec<Option<String>>>,
)
    ensures
        is_normalized(plain_text_abstract_spec(nodes, ancestors, children)),
{
    lemma_normalized_shape(abstract_raw_spec(nodes, ancestors, children, nodes.len() as int));
}

/// Two crawl operations start at least the minimal interval apart: the wait makes up what is
/// missing, and never exceeds the interval.
pub proof fn lemma_throttle_keeps_interval(elapsed: u128, interval: u128)
    ensures
        elapsed + throttle_wait_spec(Some(elapsed), interval) >= interval,
        throttle_wait_spec(Some(elapsed), interval) <= interval,
        throttle_wait_spec(None, interval) == 0,
{
}

/// The element hides the text under it: a script, or a span whose class list names `MathJax`
/// or `MathJax_Preview`.
pub open spec fn hiding_element(a: Option<ElementData>) -> bool {
    &&& a matches Some(e)
    &&& (e.0@ == "script"@ || (e.0@ == "span"@ && match e.1 {
        Some(c) => has_word(c@, "MathJax"@) || has_word(c@, "MathJax_Preview"@),
        None => false,
    }))
}

/// A text node adds its text to the abstract exactly when no enclosing element is a script or a
/// MathJax span, whatever other elements (such as links) enclose it.
pub proof fn lemma_text_kept_unless_hidden(
    out: Seq<char>,
    text: String,
    element: Option<ElementData>,
    ancestors: Seq<Option<ElementData>>,
    children: Seq<Option<String>>,
)
    ensures
        (forall|i: int| 0 <= i < ancestors.len() ==> !hiding_element(#[trigger] ancestors[i]))
            ==> abstract_step(out, (Some(text), element), ancestors, children) == out + text@,
        (exists|i: int| 0 <= i < ancestors.len() && hiding_element(#[trigger] ancestors[i]))
            ==> abstract_step(out, (Some(text), element), ancestors, children) == out,
{
    if forall|i: int| 0 <= i < ancestors.len() ==> !hiding_element(#[trigger] ancestors[i]) {
        assert forall|i: int| 0 <= i < ancestors.len() implies !hides_text(#[trigger] ancestors[i]) by {
            assert(!hiding_element(ancestors[i]));
        }
    } else {
        let i = choose|i: int| 0 <= i < ancestors.len() && hiding_element(#[trigger] ancestors[i]);
        assert(hides_text(ancestors[i]));
    }
}

/// The `k`-th `<dt>`/`<dd>` pair gives an entry: it has an identifier and a title.
pub open spec fn pair_has_entry(l: ArticleListing, k: int) -> bool {
    first_arxiv_id(l.dt_abstract_hrefs@[k]@).len() > 0 && listing_title(l.dd_titles@[k]).len() > 0
}

/// The entry of the `k`-th pair: its identifier, title, authors and abstract.
pub open spec fn pair_entry(l: ArticleListing, k: int) -> EntryView {
    (
        first_arxiv_id(l.dt_abstract_hrefs@[k]@),
        listing_title(l.dd_titles@[k]),
        listing_authors(l.dd_authors@[k]@),
        listing_abstract(
            l.dd_abstract_nodes@[k],
            l.dd_abstract_ancestors@[k],
            l.dd_abstract_children@[k],
        ),
    )
}

/// `es` holds, in page order, the entries of the pairs below `n` that give one: entry `j` comes
/// from pair `idx[j]`, the positions rise, and every such pair is among them.
pub open spec fn entries_of_pairs(l: ArticleListing, es: Seq<EntryView>, idx: Seq<int>, n: int) -> bool {
    &&& idx.len() == es.len()
    &&& forall|i: int, j: int| 0 <= i < j < idx.len() ==> #[trigger] idx[i] < #[trigger] idx[j]
    &&& forall|j: int|
        0 <= j < idx.len() ==> 0 <= #[trigger] idx[j] < n && pair_has_entry(l, idx[j]) && es[j]
            == pair_entry(l, idx[j])
    &&& forall|k: int|
        0 <= k < n && #[trigger] pair_has_entry(l, k) ==> exists|j: int|
            0 <= j < idx.len() && #[trigger] idx[j] == k
}

/// The positions of the pairs below `k` that give an entry.
pub open spec fn pairs_with_entries(l: ArticleListing, k: int) -> Seq<int>
    decreases k,
{
    if k <= 0 {
        Seq::empty()
    } else if pair_has_entry(l, k - 1) {
        pairs_with_entries(l, k - 1).push(k - 1)
    } else {
        pairs_with_entries(l, k - 1)
    }
}

proof fn lemma_entries_upto_are_pairs(l: ArticleListing, k: int)
    requires
        0 <= k <= listing_pairs(l),
    ensures
        entries_of_pairs(l, listing_entries_upto(l, k), pairs_with_entries(l, k), k),
    decreases k,
{
    if k > 0 {
        lemma_entries_upto_are_pairs(l, k - 1);
        let p = listing_entries_upto(l, k - 1);
        let ip = pairs_with_entries(l, k - 1);
        let es = listing_entries_upto(l, k);
        let idx = pairs_with_entries(l, k);
        if pair_has_entry(l, k - 1) {
            assert(listing_entry(l, k - 1) == Some(pair_entry(l, k - 1)));
            assert(es == p.push(pair_entry(l, k - 1)));
            assert(idx == ip.push(k - 1));
            assert forall|i: int, j: int| 0 <= i < j < idx.len() implies #[trigger] idx[i]
                < #[trigger] idx[j] by {
                if j < ip.len() {
                    assert(idx[i] == ip[i] && idx[j] == ip[j]);
                } else {
                    assert(idx[i] == ip[i]);
                }
            }
            assert forall|j: int| 0 <= j < idx.len() implies 0 <= #[trigger] idx[j] < k
                && pair_has_entry(l, idx[j]) && es[j] == pair_entry(l, idx[j]) by {
                if j < ip.len() {
                    assert(idx[j] == ip[j] && es[j] == p[j]);
                }
            }
            assert forall|kk: int| 0 <= kk < k && #[trigger] pair_has_entry(l, kk) implies exists|
                j: int,
            | 0 <= j < idx.len() && #[trigger] idx[j] == kk by {
                if kk < k - 1 {
                    let j = choose|j: int| 0 <= j < ip.len() && #[trigger] ip[j] == kk;
                    assert(idx[j] == ip[j]);
                } else {
                    assert(idx[ip.len() as int] == kk);
                }
            }
        } else {
            assert(listing_entry(l, k - 1) is None);
            assert forall|kk: int| 0 <= kk < k && #[trigger] pair_has_entry(l, kk) implies exists|
                j: int,
            | 0 <= j < idx.len() && #[trigger] idx[j] == kk by {
                let j = choose|j: int| 0 <= j < ip.len() && #[trigger] ip[j] == kk;
            }
        }
    }
}

/// Every `<dt>`/`<dd>` pair of the list with an identifier and a title gives an entry, and
/// nothing else does: the entries are those of these pairs, each once, in page order.
pub proof fn lemma_entries_are_the_pairs_with_entries(l: ArticleListing)
    ensures
        exists|idx: Seq<int>| entries_of_pairs(l, listing_entries(Some(l)), idx, listing_pairs(l)),
{
    lemma_entries_upto_are_pairs(l, listing_pairs(l));
    assert(entries_of_pairs(
        l,
        listing_entries(Some(l)),
        pairs_with_entries(l, listing_pairs(l)),
        listing_pairs(l),
    ));
}

} // verus!
