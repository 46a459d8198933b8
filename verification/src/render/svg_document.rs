//! A whole SVG document against the dialect of `svg`: the input budget, the
//! reader pass that bounds nesting, then every node of the parsed tree in
//! document order. Numbers are left to the caller, in the order they occur.
use crate::render::svg::{
    attribute_verdict, namespace_verdict, option_view, placement_verdict, preflight_from, required_verdict, result_view,
    root_verdict, SvgError, SvgErrorView, ValueCheck, XmlEvent, SVG_NAMESPACE,
};
use crate::text::{chars_of, trim, trim_bounds, utf8_len};
use vstd::prelude::*;

verus! {

broadcast use vstd::string::group_string_axioms;

/// The kind of a node of the parsed tree.
#[derive(Clone, Copy, Debug, PartialEq, Eq, Structural)]
pub enum SvgNodeKind {
    Element,
    Text,
    ProcessingInstruction,
    /// The document node or a comment.
    Other,
}

/// One attribute of an element: its name, raw value, and whether it has a namespace.
#[derive(Clone, Debug)]
pub struct SvgAttribute {
    pub name: String,
    pub value: String,
    pub namespaced: bool,
}

/// One node of the parsed tree. For elements: the tag name and namespace,
/// whether it is the root element, the name of the parent element, the
/// namespaces in scope, and the attributes in order. For text: the text.
#[derive(Clone, Debug)]
pub struct SvgNode {
    pub kind: SvgNodeKind,
    pub tag: String,
    pub namespace: Option<String>,
    pub is_root: bool,
    pub parent: Option<String>,
    pub namespace_uris: Vec<String>,
    pub attributes: Vec<SvgAttribute>,
    pub text: String,
}

/// A parsed document: its root element's name and namespace, and every node.
#[derive(Clone, Debug)]
pub struct SvgDocument {
    pub root_tag: String,
    pub root_namespace: Option<String>,
    pub nodes: Vec<SvgNode>,
}

/// An attribute as plain values.
pub ghost struct AttributeView {
    pub name: Seq<char>,
    pub value: Seq<char>,
    pub namespaced: bool,
}

/// A node as plain values.
pub ghost struct NodeView {
    pub kind: SvgNodeKind,
    pub tag: Seq<char>,
    pub namespace: Option<Seq<char>>,
    pub is_root: bool,
    pub parent: Option<Seq<char>>,
    pub namespace_uris: Seq<Seq<char>>,
    pub attributes: Seq<AttributeView>,
    pub text: Seq<char>,
}

/// A document as plain values.
pub ghost struct DocumentView {
    pub root_tag: Seq<char>,
    pub root_namespace: Option<Seq<char>>,
    pub nodes: Seq<NodeView>,
}

/// An optional text as plain values.
pub open spec fn opt_text(o: Option<String>) -> Option<Seq<char>> {
    match o {
        Some(s) => Some(s@),
        None => None,
    }
}

/// See `AttributeView`.
pub open spec fn attribute_view(a: SvgAttribute) -> AttributeView {
    AttributeView { name: a.name@, value: a.value@, namespaced: a.namespaced }
}

/// See `NodeView`.
pub open spec fn node_view(n: SvgNode) -> NodeView {
    NodeView {
        kind: n.kind,
        tag: n.tag@,
        namespace: opt_text(n.namespace),
        is_root: n.is_root,
        parent: opt_text(n.parent),
        namespace_uris: n.namespace_uris@.map_values(|u: String| u@),
        attributes: n.attributes@.map_values(|a: SvgAttribute| attribute_view(a)),
        text: n.text@,
    }
}

/// See `DocumentView`.
pub open spec fn document_view(d: SvgDocument) -> DocumentView {
    DocumentView {
        root_tag: d.root_tag@,
        root_namespace: opt_text(d.root_namespace),
        nodes: d.nodes@.map_values(|n: SvgNode| node_view(n)),
    }
}

/// The events `quick_xml` reads from `source`, up to the end of the input or
/// its first error (then `Malformed` is the last event).
pub uninterp spec fn xml_event_sequence(source: Seq<char>) -> Seq<XmlEvent>;

/// The tree `roxmltree` parses from `source` with its default options (no
/// document type definitions), nodes in document order; `None` when it
/// refuses the input.
pub uninterp spec fn parsed_svg_document(source: Seq<char>) -> Option<DocumentView>;

/// Whether `svgtypes` reads `value` as a color.
pub uninterp spec fn parses_as_svg_color(value: Seq<char>) -> bool;

/// The events of `quick_xml::Reader::from_str(source)` through
/// `read_event`: each event's kind, ending before `Eof` or with `Malformed`
/// at the first error. The sequence depends on `source` alone. The reading
/// loop is here because the reader's progress is not visible to Verus.
#[verifier::external_body]
fn xml_events(source: &str) -> (r: Vec<XmlEvent>)
    ensures
        r@ == xml_event_sequence(source@),
{
    let mut reader = quick_xml::Reader::from_str(source);
    let mut events = Vec::new();
    loop {
        events.push(match reader.read_event() {
            Ok(quick_xml::events::Event::Start(_)) => XmlEvent::Start,
            Ok(quick_xml::events::Event::Empty(_)) => XmlEvent::Empty,
            Ok(quick_xml::events::Event::End(_)) => XmlEvent::End,
            Ok(quick_xml::events::Event::DocType(_)) => XmlEvent::Doctype,
            Ok(quick_xml::events::Event::PI(_)) => XmlEvent::ProcessingInstruction,
            Ok(quick_xml::events::Event::Eof) => return events,
            Ok(_) => XmlEvent::Other,
            Err(_) => XmlEvent::Malformed,
        });
        if events.last() == Some(&XmlEvent::Malformed) { return events; }
    }
}

#[verifier::external_type_specification]
#[verifier::external_body]
pub struct ExRoxmlNode<'a, 'input: 'a>(usvg::roxmltree::Node<'a, 'input>);

/// The kind of `node.node_type()` (see `roxml_kind`).
pub uninterp spec fn roxml_node_kind(node: usvg::roxmltree::Node) -> SvgNodeKind;

/// The local name of `node.tag_name()`.
pub uninterp spec fn roxml_tag_name(node: usvg::roxmltree::Node) -> Seq<char>;

/// The namespace of `node.tag_name()`.
pub uninterp spec fn roxml_tag_namespace(node: usvg::roxmltree::Node) -> Option<Seq<char>>;

/// Whether `a == b` holds of two nodes.
pub uninterp spec fn roxml_same_node(a: usvg::roxmltree::Node, b: usvg::roxmltree::Node) -> bool;

/// The local tag name of `node.parent_element()`; `None` when it has none.
pub uninterp spec fn roxml_parent_tag(node: usvg::roxmltree::Node) -> Option<Seq<char>>;

/// The URIs of `node.namespaces()`, in order.
pub uninterp spec fn roxml_namespace_uri_list(node: usvg::roxmltree::Node) -> Seq<Seq<char>>;

/// `node.attributes()`, in order, as plain values (see `roxml_attributes`).
pub uninterp spec fn roxml_attribute_list(node: usvg::roxmltree::Node) -> Seq<AttributeView>;

/// `node.text()`, empty when it has none.
pub uninterp spec fn roxml_node_text(node: usvg::roxmltree::Node) -> Seq<char>;

/// A node of a parsed tree as plain values, read through the names above;
/// `root` is the document's root element.
pub open spec fn roxml_node_view(node: usvg::roxmltree::Node, root: usvg::roxmltree::Node) -> NodeView {
    NodeView {
        kind: roxml_node_kind(node),
        tag: roxml_tag_name(node),
        namespace: roxml_tag_namespace(node),
        is_root: roxml_same_node(node, root),
        parent: roxml_parent_tag(node),
        namespace_uris: roxml_namespace_uri_list(node),
        attributes: roxml_attribute_list(node),
        text: roxml_node_text(node),
    }
}

/// `node.node_type()`, one kind per node type.
#[verifier::external_body]
fn roxml_kind(node: usvg::roxmltree::Node) -> (r: SvgNodeKind)
    ensures
        r == roxml_node_kind(node),
{
    match node.node_type() {
        usvg::roxmltree::NodeType::Element => SvgNodeKind::Element,
        usvg::roxmltree::NodeType::Text => SvgNodeKind::Text,
        usvg::roxmltree::NodeType::PI => SvgNodeKind::ProcessingInstruction,
        usvg::roxmltree::NodeType::Root => SvgNodeKind::Other,
        usvg::roxmltree::NodeType::Comment => SvgNodeKind::Other,
    }
}

/// The local name of `node.tag_name()`.
#[verifier::external_body]
fn roxml_tag(node: usvg::roxmltree::Node) -> (r: String)
    ensures
        r@ == roxml_tag_name(node),
{
    node.tag_name().name().to_owned()
}

/// The namespace of `node.tag_name()`.
#[verifier::external_body]
fn roxml_namespace(node: usvg::roxmltree::Node) -> (r: Option<String>)
    ensures
        opt_text(r) == roxml_tag_namespace(node),
{
    node.tag_name().namespace().map(str::to_owned)
}

/// `a == b`: the same node of the same document.
#[verifier::external_body]
fn roxml_same(a: usvg::roxmltree::Node, b: usvg::roxmltree::Node) -> (r: bool)
    ensures
        r == roxml_same_node(a, b),
{
    a == b
}

/// `node.parent_element()`.
#[verifier::external_body]
fn roxml_parent<'a, 'input>(node: usvg::roxmltree::Node<'a, 'input>) -> (r: Option<usvg::roxmltree::Node<'a, 'input>>)
    ensures
        match r {
            Some(p) => roxml_parent_tag(node) == Some(roxml_tag_name(p)),
            None => roxml_parent_tag(node) is None,
        },
{
    node.parent_element()
}

/// The URIs of `node.namespaces()`, in order.
#[verifier::external_body]
fn roxml_namespace_uris(node: usvg::roxmltree::Node) -> (r: Vec<String>)
    ensures
        r@.map_values(|u: String| u@) == roxml_namespace_uri_list(node),
{
    node.namespaces().map(|n| n.uri().to_owned()).collect()
}

/// `node.attributes()`, in order: each name, value, and whether it has a namespace.
#[verifier::external_body]
fn roxml_attributes(node: usvg::roxmltree::Node) -> (r: Vec<SvgAttribute>)
    ensures
        r@.map_values(|a: SvgAttribute| attribute_view(a)) == roxml_attribute_list(node),
{
    node.attributes()
        .map(|a| SvgAttribute { name: a.name().to_owned(), value: a.value().to_owned(), namespaced: a.namespace().is_some() })
        .collect()
}

/// `node.text()`, empty when it has none.
#[verifier::external_body]
fn roxml_text(node: usvg::roxmltree::Node) -> (r: String)
    ensures
        r@ == roxml_node_text(node),
{
    node.text().unwrap_or_default().to_owned()
}

/// One node of a parsed tree as plain values (see `SvgNode`).
fn svg_node_of(node: usvg::roxmltree::Node, root: usvg::roxmltree::Node) -> (r: SvgNode)
    ensures
        node_view(r) == roxml_node_view(node, root),
{
    let parent = match roxml_parent(node) {
        Some(p) => Some(roxml_tag(p)),
        None => None,
    };
    SvgNode {
        kind: roxml_kind(node),
        tag: roxml_tag(node),
        namespace: roxml_namespace(node),
        is_root: roxml_same(node, root),
        parent,
        namespace_uris: roxml_namespace_uris(node),
        attributes: roxml_attributes(node),
        text: roxml_text(node),
    }
}

/// `usvg::roxmltree::Document::parse(source)`: its root element and its
/// `descendants()` in document order, each as `svg_node_of` reads it;
/// `None` when parsing fails. The tree depends on `source` alone.
#[verifier::external_body]
fn parse_svg_document(source: &str) -> (r: Option<SvgDocument>)
    ensures
        match r {
            Some(d) => parsed_svg_document(source@) == Some(document_view(d)),
            None => parsed_svg_document(source@) is None,
        },
{
    let document = usvg::roxmltree::Document::parse(source).ok()?;
    let root = document.root_element();
    let mut nodes = Vec::new();
    for node in document.descendants() {
        nodes.push(svg_node_of(node, root));
    }
    Some(SvgDocument { root_tag: roxml_tag(root), root_namespace: roxml_namespace(root), nodes })
}

/// Whether `value.parse::<svgtypes::Color>()` succeeds.
#[verifier::external_body]
fn is_svg_color(value: &str) -> (r: bool)
    ensures
        r == parses_as_svg_color(value@),
{
    value.parse::<svgtypes::Color>().is_ok()
}

/// A numeric check left to the caller: the element, the attribute, its
/// trimmed value, and what the value must be.
#[derive(Clone, Debug)]
pub struct PendingCheck {
    pub tag: String,
    pub name: String,
    pub value: String,
    pub check: ValueCheck,
}

/// A pending check as plain values.
pub type CheckView = (Seq<char>, Seq<char>, Seq<char>, ValueCheck);

/// See `CheckView`.
pub open spec fn check_view(c: PendingCheck) -> CheckView {
    (c.tag@, c.name@, c.value@, c.check)
}

/// The checks as plain values.
pub open spec fn check_views(s: Seq<PendingCheck>) -> Seq<CheckView> {
    s.map_values(|c: PendingCheck| check_view(c))
}

/// One attribute of an element `tag`: refused, accepted, or accepted with
/// a numeric check still to run. Colors are read here.
pub open spec fn attribute_outcome(tag: Seq<char>, a: AttributeView) -> Result<Option<CheckView>, SvgErrorView> {
    match attribute_verdict(tag, a.name, a.value, a.namespaced) {
        Err(e) => Err(e),
        Ok(ValueCheck::Done) => Ok(None),
        Ok(ValueCheck::Paint) => if parses_as_svg_color(trim(a.value)) {
            Ok(None)
        } else {
            Err(SvgErrorView::InvalidPaint { value: trim(a.value) })
        },
        Ok(ValueCheck::Color) => if parses_as_svg_color(trim(a.value)) {
            Ok(None)
        } else {
            Err(SvgErrorView::InvalidColor)
        },
        Ok(c) => Ok(Some((tag, a.name, trim(a.value), c))),
    }
}

/// The attributes in order: the checks collected until the first refusal, and that refusal.
pub open spec fn attributes_scan(tag: Seq<char>, attrs: Seq<AttributeView>) -> (Seq<CheckView>, Option<SvgErrorView>)
    decreases attrs.len(),
{
    if attrs.len() == 0 {
        (Seq::empty(), None)
    } else {
        let prev = attributes_scan(tag, attrs.drop_last());
        if prev.1 is Some {
            prev
        } else {
            match attribute_outcome(tag, attrs.last()) {
                Err(e) => (prev.0, Some(e)),
                Ok(None) => prev,
                Ok(Some(c)) => (prev.0.push(c), None),
            }
        }
    }
}

/// The names of attributes.
pub open spec fn attribute_names(attrs: Seq<AttributeView>) -> Seq<Seq<char>> {
    attrs.map_values(|a: AttributeView| a.name)
}

/// An element: its namespace and the namespaces in scope, where it stands,
/// its attributes, then the attributes its tag requires.
pub open spec fn element_scan(n: NodeView) -> (Seq<CheckView>, Option<SvgErrorView>) {
    if namespace_verdict(n.namespace, n.namespace_uris) is Err {
        (Seq::empty(), Some(namespace_verdict(n.namespace, n.namespace_uris)->Err_0))
    } else if placement_verdict(n.tag, n.is_root, n.parent) is Err {
        (Seq::empty(), Some(placement_verdict(n.tag, n.is_root, n.parent)->Err_0))
    } else {
        let a = attributes_scan(n.tag, n.attributes);
        if a.1 is None && required_verdict(n.tag, attribute_names(n.attributes)) is Err {
            (a.0, Some(required_verdict(n.tag, attribute_names(n.attributes))->Err_0))
        } else {
            a
        }
    }
}

/// One node: processing instructions are refused, text must be white
/// space, elements are scanned, anything else passes.
pub open spec fn node_scan(n: NodeView) -> (Seq<CheckView>, Option<SvgErrorView>) {
    match n.kind {
        SvgNodeKind::ProcessingInstruction => (Seq::empty(), Some(SvgErrorView::ProcessingInstruction)),
        SvgNodeKind::Text => if trim(n.text).len() > 0 {
            (Seq::empty(), Some(SvgErrorView::TextContent))
        } else {
            (Seq::empty(), None)
        },
        SvgNodeKind::Other => (Seq::empty(), None),
        SvgNodeKind::Element => element_scan(n),
    }
}

/// The nodes in document order, stopping at the first refusal.
pub open spec fn nodes_scan(ns: Seq<NodeView>) -> (Seq<CheckView>, Option<SvgErrorView>)
    decreases ns.len(),
{
    if ns.len() == 0 {
        (Seq::empty(), None)
    } else {
        let prev = nodes_scan(ns.drop_last());
        if prev.1 is Some {
            prev
        } else {
            let s = node_scan(ns.last());
            (prev.0 + s.0, s.1)
        }
    }
}

/// A whole document: its size in bytes within `max_bytes`, the reader
/// pass, a parse, an `svg` root in the SVG namespace, then every node.
pub open spec fn document_scan(source: Seq<char>, max_bytes: u64) -> (Seq<CheckView>, Option<SvgErrorView>) {
    if vstd::utf8::encode_utf8(source).len() > max_bytes {
        (Seq::empty(), Some(SvgErrorView::InputTooLarge { limit: max_bytes, asked: vstd::utf8::encode_utf8(source).len() as u64 }))
    } else if preflight_from(xml_event_sequence(source), 0, 0) is Err {
        (Seq::empty(), Some(preflight_from(xml_event_sequence(source), 0, 0)->Err_0))
    } else {
        match parsed_svg_document(source) {
            None => (Seq::empty(), Some(SvgErrorView::UnparsableDocument)),
            Some(d) => if root_verdict(d.root_tag, d.root_namespace) is Err {
                (Seq::empty(), Some(root_verdict(d.root_tag, d.root_namespace)->Err_0))
            } else {
                nodes_scan(d.nodes)
            },
        }
    }
}

/// The attributes of the first root element among `ns`, if any.
pub open spec fn root_attributes_of(ns: Seq<NodeView>) -> Option<Seq<AttributeView>>
    decreases ns.len(),
{
    if ns.len() == 0 {
        None
    } else if ns[0].kind == SvgNodeKind::Element && ns[0].is_root {
        Some(ns[0].attributes)
    } else {
        root_attributes_of(ns.drop_first())
    }
}

/// What a scan found: the numeric checks to run in order, then the verdict
/// on everything else, and the root element's attributes (for its geometry).
#[derive(Debug)]
pub struct SvgScan {
    pub checks: Vec<PendingCheck>,
    pub outcome: Result<(), SvgError>,
    pub root_attributes: Vec<SvgAttribute>,
}

fn attribute_step(tag: &str, a: &SvgAttribute) -> (r: Result<Option<PendingCheck>, SvgError>)
    ensures
        match r {
            Ok(Some(c)) => attribute_outcome(tag@, attribute_view(*a)) == Ok::<Option<CheckView>, SvgErrorView>(Some(check_view(c))),
            Ok(None) => attribute_outcome(tag@, attribute_view(*a)) == Ok::<Option<CheckView>, SvgErrorView>(None),
            Err(e) => attribute_outcome(tag@, attribute_view(*a)) == Err::<Option<CheckView>, SvgErrorView>(crate::render::svg::error_view(e)),
        },
{
    let c = match crate::render::svg::check_attribute(tag, a.name.as_str(), a.value.as_str(), a.namespaced) {
        Ok(c) => c,
        Err(e) => {
            return Err(e);
        },
    };
    match c {
        ValueCheck::Done => Ok(None),
        ValueCheck::Paint => {
            let v = crate::text::trim_str(a.value.as_str());
            if is_svg_color(v.as_str()) {
                Ok(None)
            } else {
                Err(SvgError::InvalidPaint { value: v })
            }
        },
        ValueCheck::Color => {
            let v = crate::text::trim_str(a.value.as_str());
            if is_svg_color(v.as_str()) {
                Ok(None)
            } else {
                Err(SvgError::InvalidColor)
            }
        },
        _ => {
            let pending = PendingCheck {
                tag: tag.to_owned(),
                name: a.name.clone(),
                value: crate::text::trim_str(a.value.as_str()),
                check: c,
            };
            Ok(Some(pending))
        },
    }
}

/// The attributes as plain values.
pub open spec fn attribute_views(s: Seq<SvgAttribute>) -> Seq<AttributeView> {
    s.map_values(|a: SvgAttribute| attribute_view(a))
}

/// The nodes as plain values.
pub open spec fn node_views(s: Seq<SvgNode>) -> Seq<NodeView> {
    s.map_values(|n: SvgNode| node_view(n))
}

/// Once an attribute is refused, later attributes change nothing.
proof fn lemma_attributes_scan_stops(tag: Seq<char>, attrs: Seq<AttributeView>, k: int)
    requires
        0 <= k <= attrs.len(),
        attributes_scan(tag, attrs.take(k)).1 is Some,
    ensures
        attributes_scan(tag, attrs) == attributes_scan(tag, attrs.take(k)),
    decreases attrs.len() - k,
{
    if k < attrs.len() {
        assert(attrs.take(k + 1).drop_last() =~= attrs.take(k));
        lemma_attributes_scan_stops(tag, attrs, k + 1);
    } else {
        assert(attrs.take(k) =~= attrs);
    }
}

/// Once a node is refused, later nodes change nothing.
proof fn lemma_nodes_scan_stops(ns: Seq<NodeView>, k: int)
    requires
        0 <= k <= ns.len(),
        nodes_scan(ns.take(k)).1 is Some,
    ensures
        nodes_scan(ns) == nodes_scan(ns.take(k)),
    decreases ns.len() - k,
{
    if k < ns.len() {
        assert(ns.take(k + 1).drop_last() =~= ns.take(k));
        lemma_nodes_scan_stops(ns, k + 1);
    } else {
        assert(ns.take(k) =~= ns);
    }
}

fn scan_attributes(tag: &str, attrs: &Vec<SvgAttribute>, checks: &mut Vec<PendingCheck>) -> (r: Option<SvgError>)
    ensures
        check_views(final(checks)@) == check_views(old(checks)@) + attributes_scan(tag@, attribute_views(attrs@)).0,
        option_view(r) == attributes_scan(tag@, attribute_views(attrs@)).1,
{
    let ghost av = attribute_views(attrs@);
    let ghost start = check_views(checks@);
    let mut k: usize = 0;
    assert(av.take(0) =~= Seq::<AttributeView>::empty());
    assert(check_views(checks@) =~= start + Seq::<CheckView>::empty());
    while k < attrs.len()
        invariant
            k <= attrs@.len(),
            av == attribute_views(attrs@),
            av.len() == attrs@.len(),
            start == check_views(old(checks)@),
            attributes_scan(tag@, av.take(k as int)).1 is None,
            check_views(checks@) == start + attributes_scan(tag@, av.take(k as int)).0,
        decreases attrs.len() - k,
    {
        let ghost before = checks@;
        assert(av.take(k + 1).drop_last() =~= av.take(k as int));
        assert(av.take(k + 1).last() == attribute_view(attrs@[k as int]));
        match attribute_step(tag, &attrs[k]) {
            Err(e) => {
                proof {
                    assert(attributes_scan(tag@, av.take(k + 1)) == (attributes_scan(tag@, av.take(k as int)).0, Some(crate::render::svg::error_view(e))));
                    lemma_attributes_scan_stops(tag@, av, k + 1);
                }
                return Some(e);
            },
            Ok(None) => {},
            Ok(Some(c)) => {
                checks.push(c);
                assert(check_views(checks@) =~= check_views(before).push(check_view(c)));
            },
        }
        k += 1;
    }
    assert(av.take(k as int) =~= av);
    None
}

fn texts_of(s: &Vec<String>) -> (r: Vec<String>)
    ensures
        crate::design::texts(r@) == crate::design::texts(s@),
{
    let mut r: Vec<String> = Vec::new();
    let mut k: usize = 0;
    while k < s.len()
        invariant
            k <= s@.len(),
            crate::design::texts(r@) == crate::design::texts(s@.take(k as int)),
        decreases s.len() - k,
    {
        let ghost before = r@;
        r.push(s[k].clone());
        assert(crate::design::texts(r@) =~= crate::design::texts(before).push(s@[k as int]@));
        assert(crate::design::texts(s@.take(k + 1)) =~= crate::design::texts(s@.take(k as int)).push(s@[k as int]@));
        k += 1;
    }
    assert(s@.take(k as int) =~= s@);
    r
}

fn attribute_name_list(attrs: &Vec<SvgAttribute>) -> (r: Vec<String>)
    ensures
        crate::design::texts(r@) == attribute_names(attribute_views(attrs@)),
{
    let mut r: Vec<String> = Vec::new();
    let mut k: usize = 0;
    while k < attrs.len()
        invariant
            k <= attrs@.len(),
            crate::design::texts(r@) == attribute_names(attribute_views(attrs@.take(k as int))),
        decreases attrs.len() - k,
    {
        let ghost before = r@;
        r.push(attrs[k].name.clone());
        assert(crate::design::texts(r@) =~= crate::design::texts(before).push(attrs@[k as int].name@));
        assert(attribute_names(attribute_views(attrs@.take(k + 1))) =~= attribute_names(attribute_views(attrs@.take(k as int))).push(attrs@[k as int].name@));
        k += 1;
    }
    assert(attrs@.take(k as int) =~= attrs@);
    r
}

fn scan_element(n: &SvgNode, checks: &mut Vec<PendingCheck>) -> (r: Option<SvgError>)
    requires
        n.kind == SvgNodeKind::Element,
    ensures
        check_views(final(checks)@) == check_views(old(checks)@) + element_scan(node_view(*n)).0,
        option_view(r) == element_scan(node_view(*n)).1,
{
    let ghost v = node_view(*n);
    let namespace: Option<&str> = match &n.namespace {
        Some(x) => Some(x.as_str()),
        None => None,
    };
    let uris = texts_of(&n.namespace_uris);
    assert(crate::design::texts(n.namespace_uris@) =~= v.namespace_uris);
    match crate::render::svg::check_namespaces(namespace, &uris) {
        Err(e) => {
            assert(check_views(checks@) =~= check_views(checks@) + Seq::<CheckView>::empty());
            return Some(e);
        },
        Ok(()) => {},
    }
    let parent: Option<&str> = match &n.parent {
        Some(x) => Some(x.as_str()),
        None => None,
    };
    match crate::render::svg::check_placement(n.tag.as_str(), n.is_root, parent) {
        Err(e) => {
            assert(check_views(checks@) =~= check_views(checks@) + Seq::<CheckView>::empty());
            return Some(e);
        },
        Ok(()) => {},
    }
    let r = scan_attributes(n.tag.as_str(), &n.attributes, checks);
    if r.is_some() {
        return r;
    }
    let names = attribute_name_list(&n.attributes);
    assert(crate::design::texts(names@) =~= attribute_names(v.attributes));
    match crate::render::svg::check_required(n.tag.as_str(), &names) {
        Err(e) => Some(e),
        Ok(()) => None,
    }
}

fn scan_node(n: &SvgNode, checks: &mut Vec<PendingCheck>) -> (r: Option<SvgError>)
    ensures
        check_views(final(checks)@) == check_views(old(checks)@) + node_scan(node_view(*n)).0,
        option_view(r) == node_scan(node_view(*n)).1,
{
    assert(check_views(checks@) =~= check_views(checks@) + Seq::<CheckView>::empty());
    match n.kind {
        SvgNodeKind::ProcessingInstruction => Some(SvgError::ProcessingInstruction),
        SvgNodeKind::Text => if crate::render::svg::check_text(n.text.as_str()).is_err() {
            Some(SvgError::TextContent)
        } else {
            None
        },
        SvgNodeKind::Other => None,
        SvgNodeKind::Element => scan_element(n, checks),
    }
}

fn scan_nodes(nodes: &Vec<SvgNode>, checks: &mut Vec<PendingCheck>) -> (r: Option<SvgError>)
    requires
        old(checks)@.len() == 0,
    ensures
        check_views(final(checks)@) == nodes_scan(node_views(nodes@)).0,
        option_view(r) == nodes_scan(node_views(nodes@)).1,
{
    let ghost nv = node_views(nodes@);
    let mut k: usize = 0;
    assert(nv.take(0) =~= Seq::<NodeView>::empty());
    assert(check_views(checks@) =~= Seq::<CheckView>::empty());
    while k < nodes.len()
        invariant
            k <= nodes@.len(),
            nv == node_views(nodes@),
            nv.len() == nodes@.len(),
            nodes_scan(nv.take(k as int)).1 is None,
            check_views(checks@) == nodes_scan(nv.take(k as int)).0,
        decreases nodes.len() - k,
    {
        assert(nv.take(k + 1).drop_last() =~= nv.take(k as int));
        assert(nv.take(k + 1).last() == node_view(nodes@[k as int]));
        let r = scan_node(&nodes[k], checks);
        if r.is_some() {
            proof {
                lemma_nodes_scan_stops(nv, k + 1);
            }
            return r;
        }
        k += 1;
    }
    assert(nv.take(k as int) =~= nv);
    None
}

fn copy_attributes(attrs: &Vec<SvgAttribute>) -> (r: Vec<SvgAttribute>)
    ensures
        attribute_views(r@) == attribute_views(attrs@),
{
    let mut r: Vec<SvgAttribute> = Vec::new();
    let mut k: usize = 0;
    while k < attrs.len()
        invariant
            k <= attrs@.len(),
            attribute_views(r@) == attribute_views(attrs@.take(k as int)),
        decreases attrs.len() - k,
    {
        let a = &attrs[k];
        let ghost before = r@;
        r.push(SvgAttribute { name: a.name.clone(), value: a.value.clone(), namespaced: a.namespaced });
        assert(attribute_views(r@) =~= attribute_views(before).push(attribute_view(attrs@[k as int])));
        assert(attribute_views(attrs@.take(k + 1)) =~= attribute_views(attrs@.take(k as int)).push(attribute_view(attrs@[k as int])));
        k += 1;
    }
    assert(attrs@.take(k as int) =~= attrs@);
    r
}

fn root_attributes(nodes: &Vec<SvgNode>) -> (r: Vec<SvgAttribute>)
    ensures
        match root_attributes_of(node_views(nodes@)) {
            Some(a) => attribute_views(r@) == a,
            None => r@.len() == 0,
        },
{
    let ghost nv = node_views(nodes@);
    let mut k: usize = 0;
    assert(nv.skip(0) =~= nv);
    while k < nodes.len()
        invariant
            k <= nodes@.len(),
            nv == node_views(nodes@),
            root_attributes_of(nv) == root_attributes_of(nv.skip(k as int)),
        decreases nodes.len() - k,
    {
        assert(nv.skip(k as int)[0] == node_view(nodes@[k as int]));
        if nodes[k].kind == SvgNodeKind::Element && nodes[k].is_root {
            return copy_attributes(&nodes[k].attributes);
        }
        assert(nv.skip(k as int).drop_first() =~= nv.skip(k + 1));
        k += 1;
    }
    assert(nv.skip(k as int).len() == 0);
    Vec::new()
}

/// Checks `source` against the dialect (see `document_scan`): the numeric
/// checks found before the first refusal, in document order, then the
/// verdict; when nothing was refused, the root element's attributes.
pub fn scan_svg_document(source: &str, max_bytes: u64) -> (r: SvgScan)
    ensures
        check_views(r.checks@) == document_scan(source@, max_bytes).0,
        result_view(r.outcome) == match document_scan(source@, max_bytes).1 {
            Some(e) => Err::<(), SvgErrorView>(e),
            None => Ok(()),
        },
        r.outcome is Ok ==> (parsed_svg_document(source@) matches Some(d) && match root_attributes_of(d.nodes) {
            Some(a) => attribute_views(r.root_attributes@) == a,
            None => r.root_attributes@.len() == 0,
        }),
{
    let mut checks: Vec<PendingCheck> = Vec::new();
    assert(check_views(checks@) =~= Seq::<CheckView>::empty());
    let bytes = source.as_bytes();
    if bytes.len() as u64 > max_bytes {
        return SvgScan { checks, outcome: Err(SvgError::InputTooLarge { limit: max_bytes, asked: bytes.len() as u64 }), root_attributes: Vec::new() };
    }
    let events = xml_events(source);
    match crate::render::svg::preflight_events(&events) {
        Err(e) => {
            return SvgScan { checks, outcome: Err(e), root_attributes: Vec::new() };
        },
        Ok(()) => {},
    }
    let document = match parse_svg_document(source) {
        Some(d) => d,
        None => {
            return SvgScan { checks, outcome: Err(SvgError::UnparsableDocument), root_attributes: Vec::new() };
        },
    };
    let ghost dv = document_view(document);
    let root_namespace: Option<&str> = match &document.root_namespace {
        Some(x) => Some(x.as_str()),
        None => None,
    };
    match crate::render::svg::check_root(document.root_tag.as_str(), root_namespace) {
        Err(e) => {
            return SvgScan { checks, outcome: Err(e), root_attributes: Vec::new() };
        },
        Ok(()) => {},
    }
    assert(dv.nodes == node_views(document.nodes@));
    match scan_nodes(&document.nodes, &mut checks) {
        Some(e) => SvgScan { checks, outcome: Err(e), root_attributes: Vec::new() },
        None => {
            let root_attributes = root_attributes(&document.nodes);
            SvgScan { checks, outcome: Ok(()), root_attributes }
        },
    }
}

} // verus!
