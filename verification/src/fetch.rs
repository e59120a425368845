//! Papers, and the arXiv search feed: building the query URL and reading
//! papers out of the Atom document that the arXiv API answers with.
use vstd::prelude::*;
use vstd::string::*;

use crate::text::{
    ascii_digit, chars_of, concat, decimal, decimal_string, first_chars, is_ascii_digit,
    normalize_whitespace, normalized, push_char, string_of_range, take_chars, trim, trimmed,
};

verus! {

/// One paper as the library knows it.
#[derive(Debug, Clone)]
pub struct Paper {
    pub id: String,
    pub title: String,
    pub authors: Vec<String>,
    pub published: String,
    pub abstract_text: String,
    pub source: String,
    pub citations: u64,
    pub venue: Option<String>,
    pub doi: Option<String>,
    pub arxiv_id: Option<String>,
    pub semantic_scholar_id: Option<String>,
    pub abs_url: String,
    pub pdf_url: Option<String>,
    pub tldr: Option<String>,
}

/// The mathematical value of a [`Paper`].
pub struct PaperView {
    pub id: Seq<char>,
    pub title: Seq<char>,
    pub authors: Seq<Seq<char>>,
    pub published: Seq<char>,
    pub abstract_text: Seq<char>,
    pub source: Seq<char>,
    pub citations: u64,
    pub venue: Option<Seq<char>>,
    pub doi: Option<Seq<char>>,
    pub arxiv_id: Option<Seq<char>>,
    pub semantic_scholar_id: Option<Seq<char>>,
    pub abs_url: Seq<char>,
    pub pdf_url: Option<Seq<char>>,
    pub tldr: Option<Seq<char>>,
}

/// The view of an optional string.
pub open spec fn opt_view(o: Option<String>) -> Option<Seq<char>> {
    match o {
        Some(s) => Some(s@),
        None => None,
    }
}

/// The views of a sequence of strings.
pub open spec fn strings_view(v: Seq<String>) -> Seq<Seq<char>> {
    v.map_values(|s: String| s@)
}

/// The views of a sequence of papers.
pub open spec fn papers_view(v: Seq<Paper>) -> Seq<PaperView> {
    v.map_values(|p: Paper| p@)
}

impl View for Paper {
    type V = PaperView;

    open spec fn view(&self) -> PaperView {
        PaperView {
            id: self.id@,
            title: self.title@,
            authors: strings_view(self.authors@),
            published: self.published@,
            abstract_text: self.abstract_text@,
            source: self.source@,
            citations: self.citations,
            venue: opt_view(self.venue),
            doi: opt_view(self.doi),
            arxiv_id: opt_view(self.arxiv_id),
            semantic_scholar_id: opt_view(self.semantic_scholar_id),
            abs_url: self.abs_url@,
            pdf_url: opt_view(self.pdf_url),
            tldr: opt_view(self.tldr),
        }
    }
}

/// A copy of an optional string.
pub fn copy_opt(o: &Option<String>) -> (r: Option<String>)
    ensures
        opt_view(r) == opt_view(*o),
{
    match o {
        Some(s) => Some(s.clone()),
        None => None,
    }
}

/// A copy of a list of strings.
pub fn copy_strings(v: &Vec<String>) -> (r: Vec<String>)
    ensures
        strings_view(r@) == strings_view(v@),
{
    let mut r: Vec<String> = Vec::new();
    let mut i: usize = 0;
    while i < v.len()
        invariant
            i <= v.len(),
            strings_view(r@) == strings_view(v@.take(i as int)),
        decreases v.len() - i,
    {
        r.push(v[i].clone());
        assert(strings_view(v@.take(i + 1)) == strings_view(v@.take(i as int)).push(v@[i as int]@));
        i = i + 1;
    }
    assert(v@.take(v.len() as int) == v@);
    r
}

impl Paper {
    /// A copy of this paper.
    pub fn duplicate(&self) -> (r: Paper)
        ensures
            r@ == self@,
    {
        Paper {
            id: self.id.clone(),
            title: self.title.clone(),
            authors: copy_strings(&self.authors),
            published: self.published.clone(),
            abstract_text: self.abstract_text.clone(),
            source: self.source.clone(),
            citations: self.citations,
            venue: copy_opt(&self.venue),
            doi: copy_opt(&self.doi),
            arxiv_id: copy_opt(&self.arxiv_id),
            semantic_scholar_id: copy_opt(&self.semantic_scholar_id),
            abs_url: self.abs_url.clone(),
            pdf_url: copy_opt(&self.pdf_url),
            tldr: copy_opt(&self.tldr),
        }
    }
}

/// A copy of a list of papers.
pub fn copy_papers(v: &Vec<Paper>) -> (r: Vec<Paper>)
    ensures
        papers_view(r@) == papers_view(v@),
{
    let mut r: Vec<Paper> = Vec::new();
    let mut i: usize = 0;
    while i < v.len()
        invariant
            i <= v.len(),
            papers_view(r@) == papers_view(v@.take(i as int)),
        decreases v.len() - i,
    {
        r.push(v[i].duplicate());
        assert(papers_view(v@.take(i + 1)) == papers_view(v@.take(i as int)).push(v@[i as int]@));
        i = i + 1;
    }
    assert(v@.take(v.len() as int) == v@);
    r
}


// ---------------------------------------------------------------------------
// The search request
// ---------------------------------------------------------------------------

/// Whether `b` is left as it is by percent-encoding: ASCII letters and
/// digits, `-`, `.`, `_` and `~`.
pub open spec fn url_safe(b: u8) -> bool {
    (48 <= b <= 57) || (65 <= b <= 90) || (97 <= b <= 122) || b == 45 || b == 46 || b == 95
        || b == 126
}

/// The upper-case hexadecimal digit for `d < 16`.
pub open spec fn hex_digit(d: u8) -> char {
    if d < 10 {
        ((48 + d) as u32) as char
    } else {
        ((55 + d) as u32) as char
    }
}

/// The percent-encoding of a byte string: safe bytes as themselves, every
/// other byte as `%` and two upper-case hex digits.
pub open spec fn percent_encoded(bytes: Seq<u8>) -> Seq<char>
    decreases bytes.len(),
{
    if bytes.len() == 0 {
        seq![]
    } else {
        let b = bytes.last();
        percent_encoded(bytes.drop_last()) + if url_safe(b) {
            seq![(b as u32) as char]
        } else {
            seq!['%', hex_digit(b / 16), hex_digit(b % 16)]
        }
    }
}

/// `urlencoding::encode`: the percent-encoding of the UTF-8 bytes of `s`.
#[verifier::external_body]
fn url_encode(s: &str) -> (r: String)
    ensures
        r@ == percent_encoded(vstd::utf8::encode_utf8(s@)),
{
    urlencoding::encode(s).into_owned()
}

/// The arXiv API query for up to twenty results for `query`, from result
/// number `offset` on.
pub open spec fn search_url_of(query: Seq<char>, offset: usize) -> Seq<char> {
    "http://export.arxiv.org/api/query?search_query=all:"@ + percent_encoded(
        vstd::utf8::encode_utf8(query),
    ) + "&start="@ + decimal(offset as nat) + "&max_results=20"@
}

/// The URL that asks arXiv for up to twenty papers for `query`, starting at
/// result `offset`.
pub fn search_url(query: &str, offset: usize) -> (r: String)
    ensures
        r@ == search_url_of(query@, offset),
{
    let encoded = url_encode(query);
    let mut url = concat("http://export.arxiv.org/api/query?search_query=all:", encoded.as_str());
    url.append("&start=");
    let start = decimal_string(offset as u64);
    url.append(start.as_str());
    url.append("&max_results=20");
    url
}

// ---------------------------------------------------------------------------
// The Atom document
// ---------------------------------------------------------------------------

/// One node of a parsed XML document, with what the feed reader needs of it.
#[derive(Debug, Clone)]
pub struct XmlNode {
    /// The node's number in the document.
    pub id: usize,
    /// The number of its parent; only the document root has none.
    pub parent: Option<usize>,
    pub is_element: bool,
    /// The local name of an element (empty for other nodes).
    pub name: String,
    /// The namespace URI of an element, if it has one.
    pub namespace: Option<String>,
    /// For an element, the text of its first child when that child is text.
    pub text: Option<String>,
}

/// The mathematical value of an [`XmlNode`].
pub struct XmlNodeView {
    pub id: usize,
    pub parent: Option<usize>,
    pub is_element: bool,
    pub name: Seq<char>,
    pub namespace: Option<Seq<char>>,
    pub text: Option<Seq<char>>,
}

impl View for XmlNode {
    type V = XmlNodeView;

    open spec fn view(&self) -> XmlNodeView {
        XmlNodeView {
            id: self.id,
            parent: self.parent,
            is_element: self.is_element,
            name: self.name@,
            namespace: opt_view(self.namespace),
            text: opt_view(self.text),
        }
    }
}

/// The views of a sequence of nodes.
pub open spec fn nodes_view(v: Seq<XmlNode>) -> Seq<XmlNodeView> {
    v.map_values(|n: XmlNode| n@)
}

#[verifier::external_type_specification]
#[verifier::external_body]
pub struct ExXmlError(roxmltree::Error);

/// The nodes of the XML document `text`, root first and then in document
/// order, or `None` when `text` is not well-formed XML.
pub uninterp spec fn xml_document(text: Seq<char>) -> Option<Seq<XmlNodeView>>;

/// `roxmltree::Document::parse`, with the document's nodes
/// (`Document::descendants`) read out into [`XmlNode`]s.
#[verifier::external_body]
fn parse_xml(text: &str) -> (r: Result<Vec<XmlNode>, roxmltree::Error>)
    ensures
        match r {
            Ok(v) => xml_document(text@) == Some(nodes_view(v@)),
            Err(_) => xml_document(text@) is None,
        },
{
    let doc = roxmltree::Document::parse(text)?;
    Ok(doc.descendants().map(|n| XmlNode {
        id: n.id().get_usize(),
        parent: n.parent().map(|p| p.id().get_usize()),
        is_element: n.is_element(),
        name: n.tag_name().name().to_string(),
        namespace: n.tag_name().namespace().map(|s| s.to_string()),
        text: n.text().map(|s| s.to_string()),
    }).collect())
}

/// The Atom namespace.
pub open spec fn atom_ns() -> Seq<char> {
    "http://www.w3.org/2005/Atom"@
}

/// Whether `n` is an element child of node `parent`.
pub open spec fn is_element_child(n: XmlNodeView, parent: usize) -> bool {
    n.is_element && n.parent == Some(parent)
}

/// Whether `n` is an Atom element named `name` and a child of `parent`.
pub open spec fn is_atom_child(n: XmlNodeView, parent: usize, name: Seq<char>) -> bool {
    is_element_child(n, parent) && n.name == name && n.namespace == Some(atom_ns())
}

/// The element children of `parent`, in document order.
pub open spec fn element_children(nodes: Seq<XmlNodeView>, parent: usize) -> Seq<XmlNodeView>
    decreases nodes.len(),
{
    if nodes.len() == 0 {
        seq![]
    } else {
        let r = element_children(nodes.drop_last(), parent);
        if is_element_child(nodes.last(), parent) {
            r.push(nodes.last())
        } else {
            r
        }
    }
}

/// The Atom elements named `name` among the children of `parent`, in order.
pub open spec fn atom_children(nodes: Seq<XmlNodeView>, parent: usize, name: Seq<char>) -> Seq<
    XmlNodeView,
>
    decreases nodes.len(),
{
    if nodes.len() == 0 {
        seq![]
    } else {
        let r = atom_children(nodes.drop_last(), parent, name);
        if is_atom_child(nodes.last(), parent, name) {
            r.push(nodes.last())
        } else {
            r
        }
    }
}

/// The trimmed text of the first Atom child of `parent` named `name` (empty
/// when it has no text), or `None` when there is no such child.
pub open spec fn child_text(nodes: Seq<XmlNodeView>, parent: usize, name: Seq<char>) -> Option<
    Seq<char>,
> {
    let c = atom_children(nodes, parent, name);
    if c.len() > 0 {
        Some(
            trimmed(
                match c[0].text {
                    Some(t) => t,
                    None => seq![],
                },
            ),
        )
    } else {
        None
    }
}

fn atom_ns_str() -> (r: &'static str)
    ensures
        r@ == atom_ns(),
{
    "http://www.w3.org/2005/Atom"
}

impl XmlNode {
    /// A copy of this node.
    pub fn duplicate(&self) -> (r: XmlNode)
        ensures
            r@ == self@,
    {
        XmlNode {
            id: self.id,
            parent: self.parent,
            is_element: self.is_element,
            name: self.name.clone(),
            namespace: copy_opt(&self.namespace),
            text: copy_opt(&self.text),
        }
    }
}

fn is_atom_child_exec(n: &XmlNode, parent: usize, name: &str) -> (r: bool)
    ensures
        r == is_atom_child(n@, parent, name@),
{
    if !n.is_element {
        return false;
    }
    match n.parent {
        Some(p) => if p != parent {
            return false;
        },
        None => return false,
    }
    let ns = String::from_str(atom_ns_str());
    let in_ns = match &n.namespace {
        Some(x) => *x == ns,
        None => false,
    };
    let wanted = String::from_str(name);
    in_ns && n.name == wanted
}

fn element_children_of(nodes: &Vec<XmlNode>, parent: usize) -> (r: Vec<XmlNode>)
    ensures
        nodes_view(r@) == element_children(nodes_view(nodes@), parent),
{
    let ghost all = nodes_view(nodes@);
    let mut r: Vec<XmlNode> = Vec::new();
    let mut i: usize = 0;
    while i < nodes.len()
        invariant
            i <= nodes.len(),
            all == nodes_view(nodes@),
            nodes_view(r@) == element_children(all.take(i as int), parent),
        decreases nodes.len() - i,
    {
        assert(all.take(i + 1).drop_last() == all.take(i as int));
        assert(all.take(i + 1).last() == nodes@[i as int]@);
        let n = &nodes[i];
        let hit = n.is_element && match n.parent {
            Some(p) => p == parent,
            None => false,
        };
        if hit {
            r.push(n.duplicate());
            assert(nodes_view(r@) == element_children(all.take(i as int), parent).push(n@));
        }
        i = i + 1;
    }
    assert(all.take(nodes.len() as int) == all);
    r
}

fn atom_children_of(nodes: &Vec<XmlNode>, parent: usize, name: &str) -> (r: Vec<XmlNode>)
    ensures
        nodes_view(r@) == atom_children(nodes_view(nodes@), parent, name@),
{
    let ghost all = nodes_view(nodes@);
    let mut r: Vec<XmlNode> = Vec::new();
    let mut i: usize = 0;
    while i < nodes.len()
        invariant
            i <= nodes.len(),
            all == nodes_view(nodes@),
            nodes_view(r@) == atom_children(all.take(i as int), parent, name@),
        decreases nodes.len() - i,
    {
        assert(all.take(i + 1).drop_last() == all.take(i as int));
        assert(all.take(i + 1).last() == nodes@[i as int]@);
        if is_atom_child_exec(&nodes[i], parent, name) {
            r.push(nodes[i].duplicate());
            assert(nodes_view(r@) == atom_children(all.take(i as int), parent, name@).push(
                nodes@[i as int]@,
            ));
        }
        i = i + 1;
    }
    assert(all.take(nodes.len() as int) == all);
    r
}

fn child_text_of(nodes: &Vec<XmlNode>, parent: usize, name: &str) -> (r: Option<String>)
    ensures
        opt_view(r) == child_text(nodes_view(nodes@), parent, name@),
{
    let c = atom_children_of(nodes, parent, name);
    if c.len() > 0 {
        assert(nodes_view(c@)[0] == c@[0]@);
        match &c[0].text {
            Some(t) => Some(trim(t.as_str())),
            None => {
                proof {
                    reveal_strlit("");
                }
                Some(trim(""))
            },
        }
    } else {
        None
    }
}

// ---------------------------------------------------------------------------
// Papers out of feed entries
// ---------------------------------------------------------------------------

/// The last index of `c` in `s`, or -1.
pub open spec fn last_index_of(s: Seq<char>, c: char) -> int
    decreases s.len(),
{
    if s.len() == 0 {
        -1
    } else if s.last() == c {
        s.len() - 1
    } else {
        last_index_of(s.drop_last(), c)
    }
}

/// What follows the last `/` of `s` (all of `s` if there is none).
pub open spec fn last_segment(s: Seq<char>) -> Seq<char> {
    s.skip(last_index_of(s, '/') + 1)
}

/// Every character of `s` is an ASCII digit (true of the empty string).
pub open spec fn all_digits(s: Seq<char>) -> bool {
    forall|i: int| 0 <= i < s.len() ==> is_ascii_digit(#[trigger] s[i])
}

/// `s` without a version suffix: cut at the last `v` when only digits
/// follow it.
pub open spec fn without_version(s: Seq<char>) -> Seq<char> {
    let p = last_index_of(s, 'v');
    if p >= 0 && all_digits(s.skip(p + 1)) {
        s.take(p)
    } else {
        s
    }
}

/// Whether `s` ends with `/abs/`.
pub open spec fn ends_with_abs(s: Seq<char>) -> bool {
    &&& s.len() >= 5
    &&& s[s.len() - 5] == '/'
    &&& s[s.len() - 4] == 'a'
    &&& s[s.len() - 3] == 'b'
    &&& s[s.len() - 2] == 's'
    &&& s[s.len() - 1] == '/'
}

/// Where the text after the last `/abs/` of `s` starts, or -1 when `s` has
/// no `/abs/`.
pub open spec fn after_abs(s: Seq<char>) -> int
    decreases s.len(),
{
    if s.len() == 0 {
        -1
    } else if ends_with_abs(s) {
        s.len() as int
    } else {
        after_abs(s.drop_last())
    }
}

/// The id part of an entry's id URL: all that follows its last `/abs/`
/// (so an old-style `archive/number` id stays whole), or its last path
/// segment when it has no `/abs/`.
pub open spec fn id_path(s: Seq<char>) -> Seq<char> {
    let k = after_abs(s);
    if k >= 0 {
        s.skip(k)
    } else {
        last_segment(s)
    }
}

/// The bare arXiv id in an entry's id URL: its id part without the version,
/// when that is not empty.
/// (`http://arxiv.org/abs/2301.00001v1` gives `2301.00001`, and
/// `http://arxiv.org/abs/hep-th/9901001v2` gives `hep-th/9901001`.)
pub open spec fn arxiv_id_of(id_url: Seq<char>) -> Option<Seq<char>> {
    let id = without_version(id_path(id_url));
    if id.len() > 0 {
        Some(id)
    } else {
        None
    }
}

proof fn lemma_last_index_of(s: Seq<char>, c: char)
    ensures
        -1 <= last_index_of(s, c) < s.len(),
        last_index_of(s, c) >= 0 ==> s[last_index_of(s, c)] == c,
        forall|k: int| last_index_of(s, c) < k < s.len() ==> s[k] != c,
    decreases s.len(),
{
    if s.len() > 0 && s.last() != c {
        lemma_last_index_of(s.drop_last(), c);
        assert forall|k: int| last_index_of(s, c) < k < s.len() implies s[k] != c by {
            if k < s.len() - 1 {
                assert(s[k] == s.drop_last()[k]);
            }
        }
    }
}

proof fn lemma_after_abs(s: Seq<char>)
    ensures
        after_abs(s) == -1 || 5 <= after_abs(s) <= s.len(),
        after_abs(s) >= 0 ==> ends_with_abs(s.take(after_abs(s))),
    decreases s.len(),
{
    if s.len() > 0 {
        if ends_with_abs(s) {
            assert(s.take(s.len() as int) == s);
        } else {
            lemma_after_abs(s.drop_last());
            let k = after_abs(s.drop_last());
            if k >= 0 {
                assert(s.drop_last().take(k) == s.take(k));
            }
        }
    }
}

proof fn lemma_after_abs_append_free(a: Seq<char>, b: Seq<char>)
    requires
        forall|i: int| 0 <= i < b.len() ==> b[i] != '/',
    ensures
        after_abs(a + b) == after_abs(a),
    decreases b.len(),
{
    if b.len() == 0 {
        assert(a + b =~= a);
    } else {
        let s = a + b;
        assert(s.last() == b[b.len() - 1]);
        assert(!ends_with_abs(s));
        assert(s.drop_last() =~= a + b.drop_last());
        assert forall|i: int| 0 <= i < b.drop_last().len() implies b.drop_last()[i] != '/' by {
            assert(b.drop_last()[i] == b[i]);
        }
        lemma_after_abs_append_free(a, b.drop_last());
    }
}

fn after_abs_index(v: &Vec<char>) -> (r: Option<usize>)
    ensures
        match r {
            Some(k) => k as int == after_abs(v@),
            None => after_abs(v@) == -1,
        },
{
    let mut i: usize = v.len();
    assert(v@.take(i as int) == v@);
    while i > 0
        invariant
            i <= v.len(),
            after_abs(v@) == after_abs(v@.take(i as int)),
        decreases i,
    {
        let ghost t = v@.take(i as int);
        assert(t.drop_last() == v@.take(i - 1));
        if i >= 5 && v[i - 5] == '/' && v[i - 4] == 'a' && v[i - 3] == 'b' && v[i - 2] == 's'
            && v[i - 1] == '/' {
            assert(ends_with_abs(t));
            return Some(i);
        }
        assert(!ends_with_abs(t));
        i = i - 1;
    }
    None
}

fn last_index(v: &Vec<char>, c: char) -> (r: Option<usize>)
    ensures
        match r {
            Some(i) => i as int == last_index_of(v@, c),
            None => last_index_of(v@, c) == -1,
        },
{
    let mut i: usize = v.len();
    assert(v@.take(i as int) == v@);
    while i > 0
        invariant
            i <= v.len(),
            last_index_of(v@, c) == last_index_of(v@.take(i as int), c),
        decreases i,
    {
        assert(v@.take(i as int).last() == v@[i - 1]);
        assert(v@.take(i as int).drop_last() == v@.take(i - 1));
        if v[i - 1] == c {
            return Some(i - 1);
        }
        i = i - 1;
    }
    None
}

proof fn lemma_last_index_of_append_free(a: Seq<char>, b: Seq<char>, c: char)
    requires
        forall|i: int| 0 <= i < b.len() ==> b[i] != c,
    ensures
        last_index_of(a + b, c) == last_index_of(a, c),
    decreases b.len(),
{
    if b.len() == 0 {
        assert(a + b =~= a);
    } else {
        let s = a + b;
        assert(s.last() == b.last());
        assert(b.last() == b[b.len() - 1]);
        assert(s.drop_last() =~= a + b.drop_last());
        assert forall|i: int| 0 <= i < b.drop_last().len() implies b.drop_last()[i] != c by {
            assert(b.drop_last()[i] == b[i]);
        }
        lemma_last_index_of_append_free(a, b.drop_last(), c);
    }
}

/// Every version of a paper's id URL gives the same arXiv id: the id of
/// `url` followed by `v` and a version number does not depend on the
/// number (it is the id part of `url`, when that is not empty).
pub proof fn law_versions_share_an_arxiv_id(url: Seq<char>, version: Seq<char>)
    requires
        all_digits(version),
    ensures
        arxiv_id_of(url + seq!['v'] + version) == (if id_path(url).len() > 0 {
            Some(id_path(url))
        } else {
            None
        }),
{
    let tail = seq!['v'] + version;
    let s = url + seq!['v'] + version;
    assert(s =~= url + tail);
    assert forall|i: int| 0 <= i < tail.len() implies tail[i] != '/' by {
        if i > 0 {
            assert(tail[i] == version[i - 1]);
            assert(is_ascii_digit(version[i - 1]));
        }
    }
    lemma_last_index_of_append_free(url, tail, '/');
    lemma_last_index_of(url, '/');
    lemma_after_abs_append_free(url, tail);
    lemma_after_abs(url);
    let seg = id_path(url);
    if after_abs(url) >= 0 {
        assert(s.skip(after_abs(url)) =~= url.skip(after_abs(url)) + tail);
    } else {
        assert(last_segment(s) =~= last_segment(url) + tail);
    }
    assert(id_path(s) =~= seg + tail);
    let w = seg + seq!['v'];
    assert(seg + tail =~= w + version);
    assert forall|i: int| 0 <= i < version.len() implies version[i] != 'v' by {
        assert(is_ascii_digit(version[i]));
    }
    lemma_last_index_of_append_free(w, version, 'v');
    assert(w.last() == 'v');
    assert(last_index_of(w, 'v') == seg.len());
    assert((w + version).skip(seg.len() + 1int) =~= version);
    assert((w + version).take(seg.len() as int) =~= seg);
}

/// The bare arXiv id in an entry's id URL, if there is one.
pub fn arxiv_id_from(id_url: &str) -> (r: Option<String>)
    ensures
        opt_view(r) == arxiv_id_of(id_url@),
{
    let v = chars_of(id_url);
    proof {
        lemma_last_index_of(v@, '/');
        lemma_after_abs(v@);
    }
    let start = match after_abs_index(&v) {
        Some(k) => k,
        None => match last_index(&v, '/') {
            Some(i) => i + 1,
            None => 0,
        },
    };
    let seg = string_of_range(&v, start, v.len());
    assert(seg@ == id_path(id_url@));
    let sv = chars_of(seg.as_str());
    proof {
        lemma_last_index_of(sv@, 'v');
    }
    let id = match last_index(&sv, 'v') {
        Some(p) => {
            let mut k: usize = p + 1;
            let mut digits = true;
            while k < sv.len()
                invariant
                    p < sv.len(),
                    p + 1 <= k <= sv.len(),
                    digits == (forall|j: int| p + 1 <= j < k ==> is_ascii_digit(#[trigger] sv@[j])),
                decreases sv.len() - k,
            {
                digits = digits && ascii_digit(sv[k]);
                k = k + 1;
            }
            assert(digits == all_digits(sv@.skip(p + 1))) by {
                if digits {
                    assert forall|i: int| 0 <= i < sv@.skip(p + 1).len() implies is_ascii_digit(
                        #[trigger] sv@.skip(p + 1)[i],
                    ) by {
                        assert(sv@.skip(p + 1)[i] == sv@[p + 1 + i]);
                    }
                } else {
                    let j = choose|j: int| p + 1 <= j < sv.len() && !is_ascii_digit(#[trigger] sv@[j]);
                    assert(sv@.skip(p + 1)[j - p - 1] == sv@[j]);
                }
            }
            if digits {
                let r = string_of_range(&sv, 0, p);
                assert(sv@.subrange(0, p as int) == sv@.take(p as int));
                r
            } else {
                seg
            }
        },
        None => seg,
    };
    if id.as_str().is_empty() {
        None
    } else {
        Some(id)
    }
}

/// The number of bytes of `c` in UTF-8.
pub open spec fn utf8_width(c: char) -> nat {
    let u = c as u32;
    if u < 0x80 {
        1
    } else if u < 0x800 {
        2
    } else if u < 0x10000 {
        3
    } else {
        4
    }
}

/// The number of bytes of `s` in UTF-8 (what `str::len` answers).
pub open spec fn utf8_len(s: Seq<char>) -> nat
    decreases s.len(),
{
    if s.len() == 0 {
        0
    } else {
        utf8_len(s.drop_last()) + utf8_width(s.last())
    }
}

/// The year an entry was published: the first four characters of
/// `published` when they take four bytes, else "Unknown".
pub open spec fn published_year(published: Option<Seq<char>>) -> Seq<char> {
    match published {
        Some(p) => if utf8_len(first_chars(p, 4)) == 4 {
            first_chars(p, 4)
        } else {
            "Unknown"@
        },
        None => "Unknown"@,
    }
}

fn year_of(published: Option<String>) -> (r: String)
    ensures
        r@ == published_year(opt_view(published)),
{
    match published {
        Some(p) => {
            let y = take_chars(p.as_str(), 4);
            let v = chars_of(y.as_str());
            let mut bytes: usize = 0;
            let mut i: usize = 0;
            while i < v.len()
                invariant
                    i <= v.len(),
                    v.len() <= 4,
                    bytes == utf8_len(v@.take(i as int)),
                    bytes <= 4 * i,
                decreases v.len() - i,
            {
                assert(v@.take(i + 1).drop_last() == v@.take(i as int));
                let u: u32 = v[i] as u32;
                let w: usize = if u < 0x80 {
                    1
                } else if u < 0x800 {
                    2
                } else if u < 0x10000 {
                    3
                } else {
                    4
                };
                bytes = bytes + w;
                i = i + 1;
            }
            assert(v@.take(v.len() as int) == v@);
            if bytes == 4 {
                y
            } else {
                String::from_str("Unknown")
            }
        },
        None => String::from_str("Unknown"),
    }
}

/// The names of the authors of entry `e`: the `name` text of each `author`
/// child that has one, normalized.
pub open spec fn entry_authors(nodes: Seq<XmlNodeView>, authors: Seq<XmlNodeView>) -> Seq<
    Seq<char>,
>
    decreases authors.len(),
{
    if authors.len() == 0 {
        seq![]
    } else {
        let r = entry_authors(nodes, authors.drop_last());
        match child_text(nodes, authors.last().id, "name"@) {
            Some(n) => r.push(normalized(n)),
            None => r,
        }
    }
}

/// Whether an author element has a `name` child.
pub open spec fn has_name(nodes: Seq<XmlNodeView>) -> spec_fn(XmlNodeView) -> bool {
    |a: XmlNodeView| child_text(nodes, a.id, "name"@) is Some
}

/// The normalized name of an author element that has one.
pub open spec fn name_of(nodes: Seq<XmlNodeView>) -> spec_fn(XmlNodeView) -> Seq<char> {
    |a: XmlNodeView| normalized(child_text(nodes, a.id, "name"@).unwrap())
}

proof fn lemma_entry_authors_named(nodes: Seq<XmlNodeView>, authors: Seq<XmlNodeView>)
    ensures
        entry_authors(nodes, authors) == authors.filter(has_name(nodes)).map_values(name_of(nodes)),
    decreases authors.len(),
{
    reveal(Seq::filter);
    if authors.len() > 0 {
        lemma_entry_authors_named(nodes, authors.drop_last());
        let f = authors.drop_last().filter(has_name(nodes));
        if has_name(nodes)(authors.last()) {
            assert(f.push(authors.last()).map_values(name_of(nodes)) =~= f.map_values(name_of(nodes)).push(
                name_of(nodes)(authors.last()),
            ));
        }
    }
}

/// A paper's authors are the normalized names of its entry's Atom
/// `author` elements that have a `name`, one per such element, in order:
/// none is dropped, however many there are.
pub proof fn law_every_named_author_is_kept(nodes: Seq<XmlNodeView>, e: usize)
    ensures
        ({
            let authors = atom_children(nodes, e, "author"@);
            let named = authors.filter(has_name(nodes));
            &&& entry_paper(nodes, e).authors == named.map_values(name_of(nodes))
            &&& entry_paper(nodes, e).authors.len() == named.len()
            &&& forall|i: int| 0 <= i < named.len() ==> #[trigger] entry_paper(nodes, e).authors[i]
                == normalized(child_text(nodes, named[i].id, "name"@).unwrap())
            &&& (forall|i: int| 0 <= i < authors.len() ==> has_name(nodes)(#[trigger] authors[i]))
                ==> entry_paper(nodes, e).authors.len() == authors.len()
        }),
{
    let authors = atom_children(nodes, e, "author"@);
    lemma_entry_authors_named(nodes, authors);
    if forall|i: int| 0 <= i < authors.len() ==> has_name(nodes)(#[trigger] authors[i]) {
        lemma_filter_keeps_all(authors, has_name(nodes));
    }
}

proof fn lemma_filter_keeps_all(s: Seq<XmlNodeView>, f: spec_fn(XmlNodeView) -> bool)
    requires
        forall|i: int| 0 <= i < s.len() ==> f(#[trigger] s[i]),
    ensures
        s.filter(f) == s,
    decreases s.len(),
{
    reveal(Seq::filter);
    if s.len() > 0 {
        assert forall|i: int| 0 <= i < s.drop_last().len() implies f(#[trigger] s.drop_last()[i]) by {
            assert(s.drop_last()[i] == s[i]);
        }
        lemma_filter_keeps_all(s.drop_last(), f);
        assert(f(s[s.len() - 1]));
        assert(s.drop_last().push(s.last()) == s);
    }
}

/// The paper that the Atom entry with id `e` describes.
pub open spec fn entry_paper(nodes: Seq<XmlNodeView>, e: usize) -> PaperView {
    let id_url = match child_text(nodes, e, "id"@) {
        Some(t) => t,
        None => seq![],
    };
    let arxiv = arxiv_id_of(id_url);
    PaperView {
        id: id_url,
        title: match child_text(nodes, e, "title"@) {
            Some(t) => normalized(t),
            None => "Untitled"@,
        },
        authors: entry_authors(nodes, atom_children(nodes, e, "author"@)),
        published: published_year(child_text(nodes, e, "published"@)),
        abstract_text: match child_text(nodes, e, "summary"@) {
            Some(t) => normalized(t),
            None => seq![],
        },
        source: "ArXiv"@,
        citations: 0,
        venue: None,
        doi: None,
        arxiv_id: arxiv,
        semantic_scholar_id: None,
        abs_url: match arxiv {
            Some(a) => "http://arxiv.org/abs/"@ + a,
            None => id_url,
        },
        pdf_url: match arxiv {
            Some(a) => Some("http://arxiv.org/pdf/"@ + a),
            None => None,
        },
        tldr: None,
    }
}

/// The Atom `entry` elements under the document's root element.
pub open spec fn feed_entries(nodes: Seq<XmlNodeView>) -> Seq<XmlNodeView> {
    if nodes.len() == 0 {
        seq![]
    } else {
        let roots = element_children(nodes, nodes[0].id);
        if roots.len() == 0 {
            seq![]
        } else {
            atom_children(nodes, roots[0].id, "entry"@)
        }
    }
}

/// The papers of a feed: one per entry, in order.
pub open spec fn feed_papers(nodes: Seq<XmlNodeView>) -> Seq<PaperView> {
    feed_entries(nodes).map_values(|e: XmlNodeView| entry_paper(nodes, e.id))
}

fn authors_of(nodes: &Vec<XmlNode>, entry: usize) -> (r: Vec<String>)
    ensures
        strings_view(r@) == entry_authors(
            nodes_view(nodes@),
            atom_children(nodes_view(nodes@), entry, "author"@),
        ),
{
    let ghost all = nodes_view(nodes@);
    let authors = atom_children_of(nodes, entry, "author");
    let ghost av = nodes_view(authors@);
    let mut r: Vec<String> = Vec::new();
    let mut i: usize = 0;
    while i < authors.len()
        invariant
            i <= authors.len(),
            all == nodes_view(nodes@),
            av == nodes_view(authors@),
            strings_view(r@) == entry_authors(all, av.take(i as int)),
        decreases authors.len() - i,
    {
        assert(av.take(i + 1).drop_last() == av.take(i as int));
        assert(av.take(i + 1).last() == authors@[i as int]@);
        match child_text_of(nodes, authors[i].id, "name") {
            Some(n) => {
                let clean = normalize_whitespace(n.as_str());
                r.push(clean);
                assert(strings_view(r@) == entry_authors(all, av.take(i as int)).push(
                    normalized(n@),
                ));
            },
            None => {},
        }
        i = i + 1;
    }
    assert(av.take(authors.len() as int) == av);
    r
}

fn entry_paper_of(nodes: &Vec<XmlNode>, entry: usize) -> (p: Paper)
    ensures
        p@ == entry_paper(nodes_view(nodes@), entry),
{
    let id_url = match child_text_of(nodes, entry, "id") {
        Some(t) => t,
        None => String::new(),
    };
    let arxiv_id = arxiv_id_from(id_url.as_str());
    let abs_url = match &arxiv_id {
        Some(a) => concat("http://arxiv.org/abs/", a.as_str()),
        None => id_url.clone(),
    };
    let pdf_url = match &arxiv_id {
        Some(a) => Some(concat("http://arxiv.org/pdf/", a.as_str())),
        None => None,
    };
    let title = match child_text_of(nodes, entry, "title") {
        Some(t) => normalize_whitespace(t.as_str()),
        None => String::from_str("Untitled"),
    };
    let abstract_text = match child_text_of(nodes, entry, "summary") {
        Some(t) => normalize_whitespace(t.as_str()),
        None => String::new(),
    };
    let published = year_of(child_text_of(nodes, entry, "published"));
    let authors = authors_of(nodes, entry);
    Paper {
        id: id_url,
        title,
        authors,
        published,
        abstract_text,
        source: String::from_str("ArXiv"),
        citations: 0,
        venue: None,
        doi: None,
        arxiv_id,
        semantic_scholar_id: None,
        abs_url,
        pdf_url,
        tldr: None,
    }
}

/// The papers of a parsed feed, one per Atom `entry` under the root
/// element, in document order.
pub fn papers_from_nodes(nodes: &Vec<XmlNode>) -> (r: Vec<Paper>)
    ensures
        papers_view(r@) == feed_papers(nodes_view(nodes@)),
{
    let ghost all = nodes_view(nodes@);
    let mut r: Vec<Paper> = Vec::new();
    if nodes.len() == 0 {
        assert(papers_view(r@) =~= feed_papers(all));
        return r;
    }
    let roots = element_children_of(nodes, nodes[0].id);
    if roots.len() == 0 {
        assert(papers_view(r@) =~= feed_papers(all));
        return r;
    }
    assert(nodes_view(roots@)[0] == roots@[0]@);
    let entries = atom_children_of(nodes, roots[0].id, "entry");
    let ghost ev = nodes_view(entries@);
    assert(ev == feed_entries(all));
    let mut i: usize = 0;
    while i < entries.len()
        invariant
            i <= entries.len(),
            all == nodes_view(nodes@),
            ev == nodes_view(entries@),
            papers_view(r@) == ev.take(i as int).map_values(|e: XmlNodeView| entry_paper(all, e.id)),
        decreases entries.len() - i,
    {
        let p = entry_paper_of(nodes, entries[i].id);
        r.push(p);
        assert(ev.take(i + 1).map_values(|e: XmlNodeView| entry_paper(all, e.id)) == ev.take(
            i as int,
        ).map_values(|e: XmlNodeView| entry_paper(all, e.id)).push(entry_paper(all, ev[i as int].id)));
        i = i + 1;
    }
    assert(ev.take(entries.len() as int) == ev);
    r
}

/// Why a feed could not be read.
#[derive(Debug)]
pub enum FeedError {
    /// The answer was not well-formed XML.
    InvalidXml,
}

impl FeedError {
    /// The message shown for this error.
    pub fn message(&self) -> (r: String)
        ensures
            r@ == "Failed to parse ArXiv Atom XML"@,
    {
        String::from_str("Failed to parse ArXiv Atom XML")
    }
}

/// The papers in the arXiv Atom feed `xml`, or an error when it is not
/// well-formed XML.
pub fn parse_atom(xml: &str) -> (r: Result<Vec<Paper>, FeedError>)
    ensures
        match r {
            Ok(ps) => xml_document(xml@) matches Some(nodes) && papers_view(ps@) == feed_papers(nodes),
            Err(_) => xml_document(xml@) is None,
        },
{
    match parse_xml(xml) {
        Ok(nodes) => Ok(papers_from_nodes(&nodes)),
        Err(_) => Err(FeedError::InvalidXml),
    }
}

} // verus!
