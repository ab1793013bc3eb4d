//! The KDL documents the configuration is written in, read through the `kdl`
//! crate. A parsed document is seen as a sequence of [`NodeView`]s; the
//! lookups the configuration needs (`get`, `get_arg`) are stated over it.
use vstd::prelude::*;
use kdl::{KdlDocument, KdlEntry, KdlError, KdlNode, KdlValue};
use crate::text::str_eq;

verus! {

#[verifier::external_type_specification]
#[verifier::external_body]
pub struct ExKdlDocument(KdlDocument);

#[verifier::external_type_specification]
#[verifier::external_body]
pub struct ExKdlNode(KdlNode);

#[verifier::external_type_specification]
#[verifier::external_body]
pub struct ExKdlEntry(KdlEntry);

#[verifier::external_type_specification]
#[verifier::external_body]
pub struct ExKdlError(KdlError);

/// A KDL value, as the configuration reads it.
pub enum ValueView {
    String(Seq<char>),
    Integer(int),
    /// A float, by the bit pattern of its `f64`.
    Float(u64),
    Bool(bool),
    Null,
}

/// One entry of a node: a positional argument (no name) or a property.
/// `text` is how KDL writes the value (`"a b"`, `42`, `#true`, `#null`).
pub struct EntryView {
    pub name: Option<Seq<char>>,
    pub value: ValueView,
    pub text: Seq<char>,
}

/// One node: its name, its entries, and its children block if it has one.
pub struct NodeView {
    pub name: Seq<char>,
    pub entries: Seq<EntryView>,
    pub children: Option<Seq<NodeView>>,
}

/// The nodes of a parsed `kdl::KdlDocument`, in order.
pub uninterp spec fn kdl_document_view(doc: KdlDocument) -> Seq<NodeView>;

/// What a `kdl::KdlNode` holds.
pub uninterp spec fn kdl_node_view(node: KdlNode) -> NodeView;

/// What a `kdl::KdlEntry` holds.
pub uninterp spec fn kdl_entry_view(entry: KdlEntry) -> EntryView;

/// The nodes `text` parses to as a KDL document, or `None` where the `kdl`
/// crate rejects it.
pub uninterp spec fn kdl_parse(text: Seq<char>) -> Option<Seq<NodeView>>;

/// A KDL value held by the library.
#[derive(Debug, Clone, PartialEq, Eq)]
pub enum Value {
    String(String),
    Integer(i128),
    /// A float, by the bit pattern of its `f64`.
    Float(u64),
    Bool(bool),
    Null,
}

impl View for Value {
    type V = ValueView;

    open spec fn view(&self) -> ValueView {
        match self {
            Value::String(s) => ValueView::String(s@),
            Value::Integer(i) => ValueView::Integer(*i as int),
            Value::Float(b) => ValueView::Float(*b),
            Value::Bool(b) => ValueView::Bool(*b),
            Value::Null => ValueView::Null,
        }
    }
}

/// `<KdlDocument as FromStr>::from_str`: parses `text` as a KDL document.
/// The contract names the outcome `kdl_parse(text)` and ties the document
/// handed back to it.
#[verifier::external_body]
pub(crate) fn parse_kdl(text: &str) -> (r: Result<KdlDocument, KdlError>)
    ensures
        match r {
            Ok(doc) => kdl_parse(text@) == Some(kdl_document_view(doc)),
            Err(_) => kdl_parse(text@) is None,
        },
{
    text.parse::<KdlDocument>()
}

/// `KdlDocument::nodes`: the nodes of the document, in order.
/// `KdlError`'s `Display`: the same text for every parse failure.
#[verifier::external_body]
pub(crate) fn kdl_error_text(e: &KdlError) -> (r: String)
    ensures
        r@ == "Failed to parse KDL document"@,
{
    e.to_string()
}

#[verifier::external_body]
pub(crate) fn document_nodes(doc: &KdlDocument) -> (r: &[KdlNode])
    ensures
        r@.len() == kdl_document_view(*doc).len(),
        forall|i: int| 0 <= i < r@.len() ==> kdl_node_view(#[trigger] r@[i]) == kdl_document_view(*doc)[i],
{
    doc.nodes()
}

/// `KdlNode::name`, as the text of the identifier.
#[verifier::external_body]
pub(crate) fn node_name(node: &KdlNode) -> (r: &str)
    ensures
        r@ == kdl_node_view(*node).name,
{
    node.name().value()
}

/// `KdlNode::entries`: the node's arguments and properties, in order.
#[verifier::external_body]
pub(crate) fn node_entries(node: &KdlNode) -> (r: &[KdlEntry])
    ensures
        r@.len() == kdl_node_view(*node).entries.len(),
        forall|i: int| 0 <= i < r@.len() ==> kdl_entry_view(#[trigger] r@[i]) == kdl_node_view(*node).entries[i],
{
    node.entries()
}

/// `KdlNode::children`: the node's children block, if it has one.
#[verifier::external_body]
pub(crate) fn node_children(node: &KdlNode) -> (r: Option<&KdlDocument>)
    ensures
        r is Some == kdl_node_view(*node).children is Some,
        r matches Some(doc) ==> kdl_document_view(*doc) == kdl_node_view(*node).children->0,
{
    node.children()
}

/// `KdlEntry::name`: the property name, `None` for a positional argument.
#[verifier::external_body]
pub(crate) fn entry_name(entry: &KdlEntry) -> (r: Option<&str>)
    ensures
        r is Some == kdl_entry_view(*entry).name is Some,
        r matches Some(s) ==> kdl_entry_view(*entry).name == Some(s@),
{
    match entry.name() {
        Some(ident) => Some(ident.value()),
        None => None,
    }
}

/// `KdlEntry::value`, converted to a [`Value`] variant by variant.
#[verifier::external_body]
pub(crate) fn entry_value(entry: &KdlEntry) -> (r: Value)
    ensures
        r@ == kdl_entry_view(*entry).value,
{
    match entry.value() {
        KdlValue::String(s) => Value::String(s.clone()),
        KdlValue::Integer(i) => Value::Integer(*i),
        KdlValue::Float(f) => Value::Float(f.to_bits()),
        KdlValue::Bool(b) => Value::Bool(*b),
        KdlValue::Null => Value::Null,
    }
}

/// The `Display` text of `KdlEntry::value`: how KDL writes the value.
#[verifier::external_body]
pub(crate) fn entry_text(entry: &KdlEntry) -> (r: String)
    ensures
        r@ == kdl_entry_view(*entry).text,
{
    entry.value().to_string()
}

/// The first node of `nodes` named `name` (`KdlDocument::get`).
pub open spec fn first_named(nodes: Seq<NodeView>, name: Seq<char>) -> Option<NodeView>
    decreases nodes.len(),
{
    if nodes.len() == 0 {
        None
    } else if nodes[0].name == name {
        Some(nodes[0])
    } else {
        first_named(nodes.drop_first(), name)
    }
}

/// The first positional entry of `entries` (`KdlNode::get(0)`).
pub open spec fn first_positional(entries: Seq<EntryView>) -> Option<EntryView>
    decreases entries.len(),
{
    if entries.len() == 0 {
        None
    } else if entries[0].name is None {
        Some(entries[0])
    } else {
        first_positional(entries.drop_first())
    }
}

/// The first argument of the first node named `name`
/// (`KdlDocument::get_arg`).
pub open spec fn arg_of(nodes: Seq<NodeView>, name: Seq<char>) -> Option<EntryView> {
    match first_named(nodes, name) {
        Some(node) => first_positional(node.entries),
        None => None,
    }
}

/// The first node of `doc` named `name`.
pub fn get_node<'a>(doc: &'a KdlDocument, name: &str) -> (r: Option<&'a KdlNode>)
    ensures
        r is Some == first_named(kdl_document_view(*doc), name@) is Some,
        r matches Some(n) ==> first_named(kdl_document_view(*doc), name@) == Some(kdl_node_view(*n)),
{
    let nodes = document_nodes(doc);
    let ghost all = kdl_document_view(*doc);
    let mut i: usize = 0;
    assert(all.skip(0) =~= all);
    while i < nodes.len()
        invariant
            i <= nodes@.len() == all.len(),
            all == kdl_document_view(*doc),
            forall|k: int| 0 <= k < nodes@.len() ==> kdl_node_view(#[trigger] nodes@[k]) == all[k],
            first_named(all, name@) == first_named(all.skip(i as int), name@),
        decreases nodes@.len() - i,
    {
        let node = &nodes[i];
        assert(all.skip(i as int)[0] == all[i as int]);
        if str_eq(node_name(node), name) {
            return Some(node);
        }
        assert(all.skip(i as int).drop_first() =~= all.skip(i + 1));
        i = i + 1;
    }
    None
}

/// The first positional entry of `node`.
pub fn first_arg<'a>(node: &'a KdlNode) -> (r: Option<&'a KdlEntry>)
    ensures
        r is Some == first_positional(kdl_node_view(*node).entries) is Some,
        r matches Some(e) ==> first_positional(kdl_node_view(*node).entries) == Some(kdl_entry_view(*e)),
{
    let entries = node_entries(node);
    let ghost all = kdl_node_view(*node).entries;
    let mut i: usize = 0;
    assert(all.skip(0) =~= all);
    while i < entries.len()
        invariant
            i <= entries@.len() == all.len(),
            all == kdl_node_view(*node).entries,
            forall|k: int| 0 <= k < entries@.len() ==> kdl_entry_view(#[trigger] entries@[k]) == all[k],
            first_positional(all) == first_positional(all.skip(i as int)),
        decreases entries@.len() - i,
    {
        let entry = &entries[i];
        assert(all.skip(i as int)[0] == all[i as int]);
        if entry_name(entry).is_none() {
            return Some(entry);
        }
        assert(all.skip(i as int).drop_first() =~= all.skip(i + 1));
        i = i + 1;
    }
    None
}

/// The first argument of the first node of `doc` named `name`.
pub fn get_arg<'a>(doc: &'a KdlDocument, name: &str) -> (r: Option<&'a KdlEntry>)
    ensures
        r is Some == arg_of(kdl_document_view(*doc), name@) is Some,
        r matches Some(e) ==> arg_of(kdl_document_view(*doc), name@) == Some(kdl_entry_view(*e)),
{
    match get_node(doc, name) {
        Some(node) => first_arg(node),
        None => None,
    }
}

} // verus!
