use vstd::prelude::*;

verus! {

/// A node of a parsed HTML document, as the extraction logic reads it.
#[derive(Debug)]
pub enum HtmlNode {
    Element(Element),
    Text(String),
    /// Comments, processing instructions and other nodes without text content.
    Other,
}

/// An HTML element: its tag name, its attributes and its children in document order.
#[derive(Debug)]
pub struct Element {
    pub name: String,
    pub attributes: Vec<(String, String)>,
    pub children: Vec<HtmlNode>,
}

/// The value of the first attribute named `key` in `attrs`.
pub open spec fn attr_in(attrs: Seq<(String, String)>, key: Seq<char>) -> Option<Seq<char>>
    decreases attrs.len(),
{
    if attrs.len() == 0 {
        None
    } else if attrs[0].0@ == key {
        Some(attrs[0].1@)
    } else {
        attr_in(attrs.drop_first(), key)
    }
}

/// The value of attribute `key` of element `e`, if it has one.
pub open spec fn attr(e: Element, key: Seq<char>) -> Option<Seq<char>> {
    attr_in(e.attributes@, key)
}

/// The text content of a node: its text descendants concatenated in document order.
pub open spec fn text_of(n: HtmlNode) -> Seq<char>
    decreases n, 1nat,
{
    match n {
        HtmlNode::Element(e) => texts_of(e.children@),
        HtmlNode::Text(t) => t@,
        HtmlNode::Other => Seq::empty(),
    }
}

/// The text content of a sequence of sibling nodes.
pub open spec fn texts_of(ns: Seq<HtmlNode>) -> Seq<char>
    decreases ns, 0nat,
{
    if ns.len() == 0 {
        Seq::empty()
    } else {
        text_of(ns[0]) + texts_of(ns.drop_first())
    }
}

/// Every element inside the nodes `ns`, at any depth, in document order.
pub open spec fn elements_within(ns: Seq<HtmlNode>) -> Seq<Element>
    decreases ns,
{
    if ns.len() == 0 {
        Seq::empty()
    } else {
        let head = match ns[0] {
            HtmlNode::Element(e) => seq![e] + elements_within(e.children@),
            _ => Seq::empty(),
        };
        head + elements_within(ns.drop_first())
    }
}

/// The descendant elements of `e` in document order.
pub open spec fn descendants(e: Element) -> Seq<Element> {
    elements_within(e.children@)
}

/// The value of attribute `key` of `e`, if present.
pub fn get_attribute<'a>(e: &'a Element, key: &str) -> (r: Option<&'a String>)
    ensures
        match r {
            Some(v) => attr(*e, key@) == Some(v@),
            None => attr(*e, key@) is None,
        },
{
    let mut i: usize = 0;
    assert(e.attributes@.skip(0) =~= e.attributes@);
    while i < e.attributes.len()
        invariant
            i <= e.attributes@.len(),
            attr(*e, key@) == attr_in(e.attributes@.skip(i as int), key@),
        decreases e.attributes@.len() - i,
    {
        assert(e.attributes@.skip(i as int).drop_first() =~= e.attributes@.skip(i + 1));
        if str_eq(e.attributes[i].0.as_str(), key) {
            return Some(&e.attributes[i].1);
        }
        i = i + 1;
    }
    None
}

/// Whether two strings hold the same characters.
pub fn str_eq(a: &str, b: &str) -> (r: bool)
    ensures
        r == (a@ == b@),
{
    let n = a.unicode_len();
    if n != b.unicode_len() {
        return false;
    }
    let mut i: usize = 0;
    while i < n
        invariant
            n == a@.len(),
            n == b@.len(),
            i <= n,
            forall|j: int| 0 <= j < i ==> a@[j] == b@[j],
        decreases n - i,
    {
        if a.get_char(i) != b.get_char(i) {
            return false;
        }
        i = i + 1;
    }
    assert(a@ =~= b@);
    true
}

/// A document parsed by libxml; opaque to the proofs.
#[verifier::external_type_specification]
#[verifier::external_body]
pub struct ExDocument(libxml::tree::Document);

/// A node of a libxml document; opaque to the proofs.
#[verifier::external_type_specification]
#[verifier::external_body]
pub struct ExNode(libxml::tree::Node);

/// How deep below a queried node the document model is copied: more levels
/// than any document held in memory can have, so no subtree is left out.
pub const MAX_DEPTH: usize = usize::MAX;

/// Whether `s` holds a NUL character.
pub open spec fn has_nul(s: Seq<char>) -> bool {
    exists|i: int| 0 <= i < s.len() && #[trigger] s[i] == '\0'
}

/// Whether `s` holds a NUL character.
pub fn contains_nul(s: &str) -> (r: bool)
    ensures
        r == has_nul(s@),
{
    let n = s.unicode_len();
    let mut i: usize = 0;
    while i < n
        invariant
            n == s@.len(),
            i <= n,
            forall|j: int| 0 <= j < i ==> s@[j] != '\0',
        decreases n - i,
    {
        if s.get_char(i) == '\0' {
            return true;
        }
        i = i + 1;
    }
    false
}

/// Whether libxml's lenient HTML parser makes a document of `html`; it fails
/// only where no tree at all can be built.
pub uninterp spec fn html_parses(html: Seq<char>) -> bool;

/// The text content of every node that `xpath` selects in the document that
/// libxml's HTML parser makes of `html`, in document order; `None` where the
/// expression is malformed.
pub uninterp spec fn xpath_texts(html: Seq<char>, xpath: Seq<char>) -> Option<Seq<Seq<char>>>;

/// The view of a sequence of strings.
pub open spec fn texts_view(v: Seq<String>) -> Seq<Seq<char>> {
    v.map_values(|s: String| s@)
}

/// The view of an optional sequence of strings.
pub open spec fn opt_texts_view(r: Option<Vec<String>>) -> Option<Seq<Seq<char>>> {
    match r {
        Some(v) => Some(texts_view(v@)),
        None => None,
    }
}

/// Relies on libxml::parser::Parser::default_html and Parser::parse_string:
/// lenient HTML parsing into a document; the error text on total failure.
#[verifier::external_body]
pub(crate) fn parse_html(body: &str) -> (r: Result<libxml::tree::Document, String>)
    ensures
        r is Ok <==> html_parses(body@),
{
    match libxml::parser::Parser::default_html().parse_string(body) {
        Ok(doc) => Ok(doc),
        Err(e) => Err(format!("{}", e)),
    }
}

/// Relies on libxml::tree::Document::get_root_element.
#[verifier::external_body]
pub(crate) fn root_element(doc: &libxml::tree::Document) -> (r: Option<libxml::tree::Node>) {
    doc.get_root_element()
}

/// Relies on libxml::tree::Node::findnodes: the nodes that an XPath expression
/// selects from `node`, in document order; `None` where the expression is
/// malformed. libxml panics on an expression holding a NUL character.
#[verifier::external_body]
pub(crate) fn find_nodes(node: &libxml::tree::Node, xpath: &str) -> (r: Option<Vec<libxml::tree::Node>>)
    requires
        !has_nul(xpath@),
{
    node.findnodes(xpath).ok()
}

/// Relies on libxml: Parser::parse_string reads `html` as HTML,
/// Document::get_root_element and Node::findnodes select the nodes of `xpath`
/// (none without a root), and Node::get_content gives their text. libxml
/// panics on an expression holding a NUL character.
#[verifier::external_body]
pub(crate) fn select_texts(html: &str, xpath: &str) -> (r: Option<Vec<String>>)
    requires
        !has_nul(xpath@),
    ensures
        html_parses(html@) ==> opt_texts_view(r) == xpath_texts(html@, xpath@),
{
    match libxml::parser::Parser::default_html().parse_string(html) {
        Err(_) => None,
        Ok(doc) => match doc.get_root_element() {
            None => Some(Vec::new()),
            Some(root) => match root.findnodes(xpath) {
                Ok(nodes) => Some(nodes.iter().map(|n| n.get_content()).collect()),
                Err(_) => None,
            },
        },
    }
}

/// Relies on libxml::tree::Node::get_content: the node's text content.
#[verifier::external_body]
pub(crate) fn node_content(node: &libxml::tree::Node) -> (r: String) {
    node.get_content()
}

/// Relies on libxml::tree::Node::is_element_node.
#[verifier::external_body]
fn node_is_element(node: &libxml::tree::Node) -> (r: bool) {
    node.is_element_node()
}

/// Relies on libxml::tree::Node::is_text_node.
#[verifier::external_body]
fn node_is_text(node: &libxml::tree::Node) -> (r: bool) {
    node.is_text_node()
}

/// Relies on libxml::tree::Node::get_name.
#[verifier::external_body]
fn node_name(node: &libxml::tree::Node) -> (r: String) {
    node.get_name()
}

/// Relies on libxml::tree::Node::get_properties: the element's attributes, one
/// pair per name, in no particular order.
#[verifier::external_body]
fn node_attributes(node: &libxml::tree::Node) -> (r: Vec<(String, String)>) {
    node.get_properties().into_iter().collect()
}

/// Relies on libxml::tree::Node::get_child_nodes: the children in document order.
#[verifier::external_body]
fn node_children(node: &libxml::tree::Node) -> (r: Vec<libxml::tree::Node>) {
    node.get_child_nodes()
}

/// Copies the subtree at `node` into the document model, down to `depth` levels.
pub(crate) fn to_html_node(node: &libxml::tree::Node, depth: usize) -> (r: HtmlNode)
    decreases depth,
{
    if node_is_element(node) {
        let kids = node_children(node);
        let mut children: Vec<HtmlNode> = Vec::new();
        if depth > 0 {
            let mut i: usize = 0;
            while i < kids.len()
                invariant
                    i <= kids@.len(),
                    depth > 0,
                decreases kids@.len() - i,
            {
                children.push(to_html_node(&kids[i], depth - 1));
                i = i + 1;
            }
        }
        HtmlNode::Element(Element { name: node_name(node), attributes: node_attributes(node), children })
    } else if node_is_text(node) {
        HtmlNode::Text(node_content(node))
    } else {
        HtmlNode::Other
    }
}

} // verus!
