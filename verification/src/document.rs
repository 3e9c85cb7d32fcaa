//! Reading a KDL document into plain nodes and entries, the form in which
//! the rest of the library takes a command description.

use vstd::prelude::*;
use vstd::string::*;
use crate::parser::DefaultValue;

verus! {

/// A node of a KDL document, as the `kdl` crate holds it.
#[verifier::external_type_specification]
#[verifier::external_body]
pub struct ExKdlNode(kdl::KdlNode);

/// An argument or property of a node, as the `kdl` crate holds it.
#[verifier::external_type_specification]
#[verifier::external_body]
pub struct ExKdlEntry(kdl::KdlEntry);

/// A parsed KDL document, as the `kdl` crate holds it.
#[verifier::external_type_specification]
#[verifier::external_body]
pub struct ExKdlDocument(kdl::KdlDocument);

/// The reason why a text is no KDL document, as the `kdl` crate holds it.
#[verifier::external_type_specification]
#[verifier::external_body]
pub struct ExKdlError(kdl::KdlError);

/// The name of a node, without quotes or escapes.
pub uninterp spec fn name_of(node: kdl::KdlNode) -> Seq<char>;

/// The type annotation of a node, without quotes or escapes, if it has one.
pub uninterp spec fn annotation_of(node: kdl::KdlNode) -> Option<Seq<char>>;

/// The arguments and properties of a node, in the order of the document.
pub uninterp spec fn entries_of(node: kdl::KdlNode) -> Seq<kdl::KdlEntry>;

/// The children block of a node; `None` for a node without one.
pub uninterp spec fn children_of(node: kdl::KdlNode) -> Option<kdl::KdlDocument>;

/// The top-level nodes of a document, in order.
pub uninterp spec fn nodes_of(doc: kdl::KdlDocument) -> Seq<kdl::KdlNode>;

/// How many levels of children blocks a node has below itself.
pub uninterp spec fn depth_of(node: kdl::KdlNode) -> nat;

/// `KdlNode::name` and `KdlIdentifier::value`: the node's name.
#[verifier::external_body]
fn node_name(node: &kdl::KdlNode) -> (res: String)
    ensures
        res@ == name_of(*node),
{
    node.name().value().to_string()
}

/// `KdlNode::ty` and `KdlIdentifier::value`: the node's type annotation.
#[verifier::external_body]
fn node_annotation(node: &kdl::KdlNode) -> (res: Option<String>)
    ensures
        res is Some <==> annotation_of(*node) is Some,
        res matches Some(t) ==> Some(t@) == annotation_of(*node),
{
    node.ty().map(|id| id.value().to_string())
}

/// `KdlNode::entries`: the node's arguments and properties.
#[verifier::external_body]
fn node_entries(node: &kdl::KdlNode) -> (res: &[kdl::KdlEntry])
    ensures
        res@ == entries_of(*node),
{
    node.entries()
}

/// `KdlNode::children`: the children block. Each of its nodes lies below
/// the node, so it has fewer levels below itself than the node has.
#[verifier::external_body]
fn node_children(node: &kdl::KdlNode) -> (res: Option<&kdl::KdlDocument>)
    ensures
        res is Some <==> children_of(*node) is Some,
        res matches Some(doc) ==> Some(*doc) == children_of(*node),
        res matches Some(doc) ==> forall|i: int|
            0 <= i < nodes_of(*doc).len() ==> depth_of(#[trigger] nodes_of(*doc)[i]) < depth_of(
                *node,
            ),
{
    node.children()
}

/// `KdlDocument::nodes`: the top-level nodes of a document.
#[verifier::external_body]
fn document_nodes(doc: &kdl::KdlDocument) -> (res: &[kdl::KdlNode])
    ensures
        res@ == nodes_of(*doc),
{
    doc.nodes()
}

/// The name of a property, without quotes or escapes; `None` for an
/// argument.
pub uninterp spec fn entry_name_of(entry: kdl::KdlEntry) -> Option<Seq<char>>;

/// The type annotation of an entry as the document writes it, if it has one.
pub uninterp spec fn entry_annotation_of(entry: kdl::KdlEntry) -> Option<Seq<char>>;

/// The value of an entry as KDL writes it.
pub uninterp spec fn entry_text_of(entry: kdl::KdlEntry) -> Seq<char>;

/// The value of an entry if it is a truth value.
pub uninterp spec fn entry_bool_of(entry: kdl::KdlEntry) -> Option<bool>;

/// Whether the value of an entry is the null value.
pub uninterp spec fn entry_null_of(entry: kdl::KdlEntry) -> bool;

/// `KdlEntry::name` and `KdlIdentifier::value`: the property's name.
#[verifier::external_body]
fn entry_name(entry: &kdl::KdlEntry) -> (res: Option<String>)
    ensures
        res is Some <==> entry_name_of(*entry) is Some,
        res matches Some(n) ==> Some(n@) == entry_name_of(*entry),
{
    entry.name().map(|id| id.value().to_string())
}

/// `KdlEntry::ty` and the `Display` of `KdlIdentifier`: the entry's type
/// annotation in the words of the document.
#[verifier::external_body]
fn entry_annotation(entry: &kdl::KdlEntry) -> (res: Option<String>)
    ensures
        res is Some <==> entry_annotation_of(*entry) is Some,
        res matches Some(t) ==> Some(t@) == entry_annotation_of(*entry),
{
    entry.ty().map(|id| id.to_string())
}

/// `KdlEntry::value` and the `Display` of `KdlValue`: the entry's value as
/// KDL writes it.
#[verifier::external_body]
fn entry_text(entry: &kdl::KdlEntry) -> (res: String)
    ensures
        res@ == entry_text_of(*entry),
{
    entry.value().to_string()
}

/// `KdlEntry::value` and `KdlValue::as_bool`: the entry's value if it is a
/// truth value.
#[verifier::external_body]
fn entry_bool(entry: &kdl::KdlEntry) -> (res: Option<bool>)
    ensures
        res == entry_bool_of(*entry),
{
    entry.value().as_bool()
}

/// `KdlEntry::value` and `KdlValue::is_null`: whether the entry's value is
/// the null value.
#[verifier::external_body]
fn entry_is_null(entry: &kdl::KdlEntry) -> (res: bool)
    ensures
        res == entry_null_of(*entry),
{
    entry.value().is_null()
}

/// An argument or property of a node.
#[derive(Debug, Clone)]
pub struct Entry {
    /// The name of a property; `None` for an argument.
    pub name: Option<String>,
    /// The type annotation as the document writes it.
    pub ty: Option<String>,
    /// The value: a truth value, null, or anything else as KDL writes it.
    pub value: DefaultValue,
    /// The value as KDL writes it.
    pub text: String,
}

/// A node of a document, with the nodes of its children block.
#[derive(Debug)]
pub struct Node {
    pub name: String,
    /// The type annotation, without quotes or escapes.
    pub ty: Option<String>,
    pub entries: Vec<Entry>,
    /// The nodes of the children block; `None` for a node without one.
    pub children: Option<Vec<Node>>,
}

impl Clone for Node {
    fn clone(&self) -> (res: Self)
        decreases self,
    {
        let children = match &self.children {
            Some(kids) => {
                let mut out: Vec<Node> = Vec::new();
                let mut i: usize = 0;
                while i < kids.len()
                    invariant
                        i <= kids.len(),
                        self.children == Some(*kids),
                    decreases kids.len() - i,
                {
                    proof {
                        vstd::std_specs::vec::axiom_vec_index_decreases(*kids, i as int);
                        assert(decreases_to!(self.children => self.children->Some_0));
                    }
                    out.push(kids[i].clone());
                    i += 1;
                }
                Some(out)
            },
            None => None,
        };
        Node {
            name: self.name.clone(),
            ty: self.ty.clone(),
            entries: self.entries.clone(),
            children,
        }
    }
}

/// Whether an optional string holds the given optional text.
pub open spec fn holds(s: Option<String>, text: Option<Seq<char>>) -> bool {
    match (s, text) {
        (Some(a), Some(b)) => a@ == b,
        (None, None) => true,
        _ => false,
    }
}

impl Entry {
    /// Whether this entry says what the document's entry holds.
    pub open spec fn mirrors(&self, entry: kdl::KdlEntry) -> bool {
        &&& holds(self.name, entry_name_of(entry))
        &&& holds(self.ty, entry_annotation_of(entry))
        &&& self.text@ == entry_text_of(entry)
        &&& match self.value {
            DefaultValue::Bool(b) => entry_bool_of(entry) == Some(b),
            DefaultValue::Null => entry_bool_of(entry) is None && entry_null_of(entry),
            DefaultValue::Literal(t) => entry_bool_of(entry) is None && !entry_null_of(entry)
                && t@ == entry_text_of(entry),
        }
    }

    /// Takes an entry out of a document.
    pub fn read(entry: &kdl::KdlEntry) -> (res: Entry)
        ensures
            res.mirrors(*entry),
    {
        let text = entry_text(entry);
        let value = match entry_bool(entry) {
            Some(b) => DefaultValue::Bool(b),
            None => {
                if entry_is_null(entry) {
                    DefaultValue::Null
                } else {
                    DefaultValue::Literal(text.clone())
                }
            },
        };
        Entry { name: entry_name(entry), ty: entry_annotation(entry), value, text }
    }
}

/// Whether the entries say, one by one, what the document's entries hold.
pub open spec fn entries_mirror(entries: Seq<Entry>, of: Seq<kdl::KdlEntry>) -> bool {
    &&& entries.len() == of.len()
    &&& forall|i: int| 0 <= i < entries.len() ==> (#[trigger] entries[i]).mirrors(of[i])
}

impl Node {
    /// Whether this node says what the document's node holds, children
    /// included.
    pub open spec fn mirrors(&self, node: kdl::KdlNode) -> bool
        decreases self,
    {
        &&& self.name@ == name_of(node)
        &&& holds(self.ty, annotation_of(node))
        &&& entries_mirror(self.entries@, entries_of(node))
        &&& match (self.children, children_of(node)) {
            (Some(kids), Some(of)) => {
                &&& kids@.len() == nodes_of(of).len()
                &&& forall|i: int|
                    0 <= i < kids@.len() ==> (#[trigger] kids@[i]).mirrors(nodes_of(of)[i])
            },
            (None, None) => true,
            _ => false,
        }
    }

    /// Takes a node out of a document, with everything below it.
    pub fn read(node: &kdl::KdlNode) -> (res: Node)
        ensures
            res.mirrors(*node),
        decreases depth_of(*node),
    {
        let found = node_entries(node);
        let mut entries: Vec<Entry> = Vec::new();
        let mut i: usize = 0;
        while i < found.len()
            invariant
                i <= found.len(),
                entries_mirror(entries@, found@.take(i as int)),
            decreases found.len() - i,
        {
            entries.push(Entry::read(&found[i]));
            i += 1;
        }
        assert(found@.take(found.len() as int) =~= found@);
        let children = match node_children(node) {
            Some(below) => Some(Node::read_all(document_nodes(below), Ghost(depth_of(*node)))),
            None => None,
        };
        Node { name: node_name(node), ty: node_annotation(node), entries, children }
    }

    fn read_all(nodes: &[kdl::KdlNode], Ghost(bound): Ghost<nat>) -> (res: Vec<Node>)
        requires
            forall|i: int| 0 <= i < nodes@.len() ==> depth_of(#[trigger] nodes@[i]) < bound,
        ensures
            nodes_mirror(res@, nodes@),
        decreases bound, 0nat,
    {
        let mut out: Vec<Node> = Vec::new();
        let mut i: usize = 0;
        while i < nodes.len()
            invariant
                i <= nodes.len(),
                forall|k: int| 0 <= k < nodes@.len() ==> depth_of(#[trigger] nodes@[k]) < bound,
                nodes_mirror(out@, nodes@.take(i as int)),
            decreases nodes.len() - i,
        {
            out.push(Node::read(&nodes[i]));
            i += 1;
        }
        assert(nodes@.take(nodes.len() as int) =~= nodes@);
        out
    }
}

/// The top-level nodes of the document that a text holds, in order; `None`
/// for a text that is no KDL document.
pub uninterp spec fn document_of(text: Seq<char>) -> Option<Seq<kdl::KdlNode>>;

/// `KdlDocument::parse`: the document that a text holds, or the reason why
/// it holds none.
#[verifier::external_body]
fn parse_document(text: &str) -> (res: Result<kdl::KdlDocument, kdl::KdlError>)
    ensures
        res is Ok <==> document_of(text@) is Some,
        res matches Ok(doc) ==> Some(nodes_of(doc)) == document_of(text@),
{
    kdl::KdlDocument::parse(text)
}

/// What is said of a text that is no KDL document.
pub open spec fn parse_failure() -> Seq<char> {
    "Failed to parse KDL document"@
}

/// The `Display` of `KdlError`: one fixed sentence, whatever the error
/// holds.
#[verifier::external_body]
fn error_text(error: &kdl::KdlError) -> (res: String)
    ensures
        res@ == parse_failure(),
{
    error.to_string()
}

/// Reads a KDL document from its text: the top-level nodes with everything
/// below them, or the parser's message for a text that is no document.
pub fn read_document(text: &str) -> (res: Result<Vec<Node>, String>)
    ensures
        res is Ok <==> document_of(text@) is Some,
        res matches Ok(nodes) ==> nodes_mirror(nodes@, document_of(text@)->0),
        res matches Err(message) ==> message@ == parse_failure(),
{
    match parse_document(text) {
        Ok(doc) => {
            let found = document_nodes(&doc);
            let mut nodes: Vec<Node> = Vec::new();
            let mut i: usize = 0;
            while i < found.len()
                invariant
                    i <= found.len(),
                    nodes_mirror(nodes@, found@.take(i as int)),
                decreases found.len() - i,
            {
                nodes.push(Node::read(&found[i]));
                i += 1;
            }
            assert(found@.take(found.len() as int) =~= found@);
            Ok(nodes)
        },
        Err(e) => Err(error_text(&e)),
    }
}

/// Whether the nodes say, one by one, what the document's nodes hold.
pub open spec fn nodes_mirror(nodes: Seq<Node>, of: Seq<kdl::KdlNode>) -> bool {
    &&& nodes.len() == of.len()
    &&& forall|i: int| 0 <= i < nodes.len() ==> (#[trigger] nodes[i]).mirrors(of[i])
}

} // verus!
