//! JSON documents as `serde_json` reads them. Nothing here is proved: the
//! contracts of this module state what is taken on trust of `serde_json`.

use vstd::prelude::*;

verus! {

/// A JSON document as `serde_json` holds it.
#[verifier::external_body]
pub struct Document {
    inner: serde_json::Value,
}

/// Why `serde_json` refused a text.
#[verifier::external_type_specification]
#[verifier::external_body]
pub struct ExDocumentError(serde_json::Error);

/// The model of a document: what a `serde_json::Value` holds. A number is
/// modelled by the text that `serde_json` displays it as, an object by the
/// sequence of its entries in the order in which its map hands them out.
pub enum DocumentView {
    Null,
    Bool(bool),
    Number(Seq<char>),
    String(Seq<char>),
    Array(Seq<DocumentView>),
    Object(Seq<(Seq<char>, DocumentView)>),
}

/// What the document `d` holds.
pub uninterp spec fn document_view(d: Document) -> DocumentView;

/// What `serde_json::from_str` reads from `text`: the document, or nothing
/// where it refuses the text.
pub uninterp spec fn parsed_document(text: Seq<char>) -> Option<DocumentView>;

/// The top level of a document, with its parts still to be looked into.
pub enum Node {
    Null,
    Bool(bool),
    Number(String),
    String(String),
    Array(Vec<Document>),
    Object(Vec<(String, Document)>),
}

/// What the documents `items` hold, in order.
pub open spec fn documents_view(items: Seq<Document>) -> Seq<DocumentView> {
    Seq::new(items.len(), |i: int| document_view(items[i]))
}

/// What the entries `entries` hold, in order.
pub open spec fn entries_view(entries: Seq<(String, Document)>) -> Seq<(Seq<char>, DocumentView)> {
    Seq::new(entries.len(), |i: int| (entries[i].0@, document_view(entries[i].1)))
}

impl Node {
    /// The document of which this is the top level.
    pub open spec fn document(self) -> DocumentView {
        match self {
            Node::Null => DocumentView::Null,
            Node::Bool(b) => DocumentView::Bool(b),
            Node::Number(text) => DocumentView::Number(text@),
            Node::String(s) => DocumentView::String(s@),
            Node::Array(items) => DocumentView::Array(documents_view(items@)),
            Node::Object(entries) => DocumentView::Object(entries_view(entries@)),
        }
    }

    /// No two entries of an object have the same name.
    pub open spec fn names_distinct(self) -> bool {
        match self {
            Node::Object(entries) => forall|i: int, j: int|
                0 <= i < j < entries.len() ==> (#[trigger] entries[i]).0@ != (
                #[trigger] entries[j]).0@,
            _ => true,
        }
    }
}

impl Document {
    /// Takes a `serde_json::Value` apart, one arm for each of its variants.
    /// A number comes out as the text of `serde_json::Number`'s `Display`,
    /// an object as the entries that `serde_json::Map::into_iter` hands
    /// out, in its order. The contract claims that the parts are those of
    /// the document, and that a map holds no key twice.
    #[verifier::external_body]
    pub(crate) fn into_node(self) -> (n: Node)
        ensures
            n.document() == document_view(self),
            n.names_distinct(),
    {
        match self.inner {
            serde_json::Value::Null => Node::Null,
            serde_json::Value::Bool(b) => Node::Bool(b),
            serde_json::Value::Number(number) => Node::Number(number.to_string()),
            serde_json::Value::String(s) => Node::String(s),
            serde_json::Value::Array(items) => Node::Array(
                items.into_iter().map(|inner| Document { inner }).collect(),
            ),
            serde_json::Value::Object(map) => Node::Object(
                map.into_iter().map(|(name, inner)| (name, Document { inner })).collect(),
            ),
        }
    }

    /// Calls `serde_json::from_str` for a `serde_json::Value`. The contract
    /// claims only that the outcome depends on the text alone.
    #[verifier::external_body]
    pub(crate) fn from_text(text: &str) -> (r: Result<Document, serde_json::Error>)
        ensures
            match r {
                Ok(d) => parsed_document(text@) == Some(document_view(d)),
                Err(_) => parsed_document(text@) is None,
            },
    {
        serde_json::from_str(text).map(|inner| Document { inner })
    }
}

} // verus!
