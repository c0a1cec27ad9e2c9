//! Reading JSON text into values, and the ways in which reading or
//! compiling can fail.

use crate::decimal::{integer_literal_value, is_number_literal, lemma_integer_literal, Decimal};
use crate::document::{
    document_view, documents_view, entries_view, parsed_document, Document, DocumentView, Node,
};
use crate::value::{
    decimal_number, valid_value, ArrayValue, BooleanValue, NullValue, NumberValue, ObjectProperty,
    ObjectValue, StringValue, Value, ValueView,
};
use vstd::prelude::*;
use vstd::string::StringExecFns;

verus! {

/// Why a text, a value or a filter was refused.
pub enum ParseError {
    /// The text is not a JSON document.
    MalformedJson,
    /// A required member is absent or has the wrong kind.
    MissingField(String),
    /// The geometry's kind is none of those that are supported.
    UnsupportedGeometryType(String),
    /// The coordinates are absent, are not numbers or are not two.
    MalformedGeometry,
    /// The expression's kind is none of those of the filter language.
    UnsupportedExpressionType(String),
    /// A comparison's value is neither a string nor a number.
    UnsupportedElementType,
    /// A comparison names a field that the caller does not allow.
    UnknownField(String),
    /// A conjunction or disjunction without any operand.
    EmptyExpressionList,
}

/// A `ParseError` with its texts as sequences of characters.
pub enum ParseErrorView {
    MalformedJson,
    MissingField(Seq<char>),
    UnsupportedGeometryType(Seq<char>),
    MalformedGeometry,
    UnsupportedExpressionType(Seq<char>),
    UnsupportedElementType,
    UnknownField(Seq<char>),
    EmptyExpressionList,
}

impl View for ParseError {
    type V = ParseErrorView;

    open spec fn view(&self) -> ParseErrorView {
        match self {
            ParseError::MalformedJson => ParseErrorView::MalformedJson,
            ParseError::MissingField(name) => ParseErrorView::MissingField(name@),
            ParseError::UnsupportedGeometryType(tag) => ParseErrorView::UnsupportedGeometryType(
                tag@,
            ),
            ParseError::MalformedGeometry => ParseErrorView::MalformedGeometry,
            ParseError::UnsupportedExpressionType(tag) => ParseErrorView::UnsupportedExpressionType(
                tag@,
            ),
            ParseError::UnsupportedElementType => ParseErrorView::UnsupportedElementType,
            ParseError::UnknownField(name) => ParseErrorView::UnknownField(name@),
            ParseError::EmptyExpressionList => ParseErrorView::EmptyExpressionList,
        }
    }
}

/// What is wrong, in words: the kind of the error, and after a colon and a
/// space the name or the kind that it is about, where it has one.
pub open spec fn error_text(e: ParseErrorView) -> Seq<char> {
    match e {
        ParseErrorView::MalformedJson => "malformed JSON"@,
        ParseErrorView::MissingField(name) => "missing field: "@ + name,
        ParseErrorView::UnsupportedGeometryType(tag) => "unsupported geometry type: "@ + tag,
        ParseErrorView::MalformedGeometry => "malformed geometry"@,
        ParseErrorView::UnsupportedExpressionType(tag) => "unsupported expression type: "@ + tag,
        ParseErrorView::UnsupportedElementType => "unsupported element type"@,
        ParseErrorView::UnknownField(name) => "unknown field: "@ + name,
        ParseErrorView::EmptyExpressionList => "empty expression list"@,
    }
}

fn with_name(kind: &str, name: &str) -> (r: String)
    ensures
        r@ == kind@ + name@,
{
    kind.to_owned().concat(name)
}

impl ParseError {
    /// What is wrong, in words.
    pub fn to_text(&self) -> (r: String)
        ensures
            r@ == error_text(self@),
    {
        match self {
            ParseError::MalformedJson => "malformed JSON".to_owned(),
            ParseError::MissingField(name) => with_name("missing field: ", name.as_str()),
            ParseError::UnsupportedGeometryType(tag) => with_name(
                "unsupported geometry type: ",
                tag.as_str(),
            ),
            ParseError::MalformedGeometry => "malformed geometry".to_owned(),
            ParseError::UnsupportedExpressionType(tag) => with_name(
                "unsupported expression type: ",
                tag.as_str(),
            ),
            ParseError::UnsupportedElementType => "unsupported element type".to_owned(),
            ParseError::UnknownField(name) => with_name("unknown field: ", name.as_str()),
            ParseError::EmptyExpressionList => "empty expression list".to_owned(),
        }
    }
}

/// The error for a member named `name` that is absent or of the wrong kind.
pub fn missing_field(name: &str) -> (r: ParseError)
    ensures
        r@ == ParseErrorView::MissingField(name@),
{
    ParseError::MissingField(name.to_owned())
}

/// Whether a document can be held as a value: every number in it is
/// displayed as a number literal.
pub open spec fn document_readable(d: DocumentView) -> bool
    decreases d,
{
    match d {
        DocumentView::Number(text) => is_number_literal(text),
        DocumentView::Array(items) => forall|i: int|
            0 <= i < items.len() ==> document_readable(#[trigger] items[i]),
        DocumentView::Object(entries) => forall|i: int|
            0 <= i < entries.len() ==> document_readable((#[trigger] entries[i]).1),
        _ => true,
    }
}

/// The value that a document is held as. Elements and entries keep their
/// order; a number becomes an integer where its text is the numeral of a
/// 64-bit signed integer, and the number that its text writes otherwise.
pub open spec fn document_value(d: DocumentView) -> ValueView
    decreases d,
{
    match d {
        DocumentView::Null => ValueView::Null,
        DocumentView::Bool(b) => ValueView::Boolean(b),
        DocumentView::Number(text) => ValueView::Number(decimal_number(text)),
        DocumentView::String(s) => ValueView::String(s),
        DocumentView::Array(items) => ValueView::Array(
            Seq::new(
                items.len(),
                |i: int|
                    if 0 <= i < items.len() {
                        document_value(items[i])
                    } else {
                        ValueView::Null
                    },
            ),
        ),
        DocumentView::Object(entries) => ValueView::Object(
            Seq::new(
                entries.len(),
                |i: int|
                    if 0 <= i < entries.len() {
                        (entries[i].0, document_value(entries[i].1))
                    } else {
                        (Seq::empty(), ValueView::Null)
                    },
            ),
        ),
    }
}

/// Holds a document as a value.
pub fn parse_model_value(value: Document) -> (r: Result<Value, ParseError>)
    ensures
        match r {
            Ok(v) => document_readable(document_view(value)) && v@ == document_value(
                document_view(value),
            ) && valid_value(v@),
            Err(e) => !document_readable(document_view(value)) && e@
                == ParseErrorView::MalformedJson,
        },
    decreases document_view(value),
{
    let ghost view = document_view(value);
    match value.into_node() {
        Node::Null => Ok(Value::NullValue(NullValue {  })),
        Node::Bool(b) => Ok(Value::BooleanValue(BooleanValue { value: b })),
        Node::Number(text) => match Decimal::parse(text.as_str()) {
            Some(d) => {
                proof {
                    lemma_integer_literal(d@, integer_literal_value(d@).unwrap_or(0));
                }
                Ok(Value::NumberValue(NumberValue::from_decimal(d)))
            },
            None => Err(ParseError::MalformedJson),
        },
        Node::String(s) => Ok(Value::StringValue(StringValue { value: s })),
        Node::Array(items) => {
            let ghost docs = items@;
            let mut out: Vec<Value> = Vec::new();
            for item in it: items
                invariant
                    it.seq() == docs,
                    view == document_view(value),
                    view == DocumentView::Array(documents_view(docs)),
                    out.len() == it.index(),
                    forall|k: int|
                        0 <= k < out.len() ==> (#[trigger] out@[k])@ == document_value(
                            document_view(docs[k]),
                        ) && valid_value(out@[k]@) && document_readable(document_view(docs[k])),
            {
                let ghost at = it.index();
                assert(view->Array_0[at] == document_view(item));
                assert(decreases_to!(view => view->Array_0));
                assert(decreases_to!(view->Array_0 => view->Array_0[at]));
                match parse_model_value(item) {
                    Ok(v) => out.push(v),
                    Err(e) => {
                        return Err(e);
                    },
                }
            }
            let r = Value::ArrayValue(ArrayValue { value: out });
            proof {
                assert(r@->Array_0 =~= document_value(view)->Array_0);
                assert forall|i: int| 0 <= i < view->Array_0.len() implies document_readable(
                    #[trigger] view->Array_0[i],
                ) by {
                    assert(out@[i]@ == document_value(document_view(docs[i])));
                }
            }
            Ok(r)
        },
        Node::Object(entries) => {
            let ghost docs = entries@;
            let mut out: Vec<ObjectProperty> = Vec::new();
            for entry in it: entries
                invariant
                    it.seq() == docs,
                    view == document_view(value),
                    view == DocumentView::Object(entries_view(docs)),
                    out.len() == it.index(),
                    forall|k: int|
                        0 <= k < out.len() ==> (#[trigger] out@[k]).name@ == docs[k].0@
                            && out@[k].value@ == document_value(document_view(docs[k].1))
                            && valid_value(out@[k].value@) && document_readable(
                            document_view(docs[k].1),
                        ),
            {
                let ghost at = it.index();
                let (name, inner) = entry;
                assert(view->Object_0[at] == (name@, document_view(inner)));
                assert(decreases_to!(view => view->Object_0));
                assert(decreases_to!(view->Object_0 => view->Object_0[at]));
                assert(decreases_to!(view->Object_0[at] => view->Object_0[at].1));
                match parse_model_value(inner) {
                    Ok(v) => out.push(ObjectProperty { name, value: v }),
                    Err(e) => {
                        return Err(e);
                    },
                }
            }
            let r = Value::ObjectValue(ObjectValue { value: out });
            proof {
                assert(r@->Object_0 =~= document_value(view)->Object_0);
                assert forall|i: int| 0 <= i < view->Object_0.len() implies document_readable(
                    (#[trigger] view->Object_0[i]).1,
                ) by {
                    assert(out@[i].name@ == docs[i].0@);
                }
            }
            Ok(r)
        },
    }
}

/// What reading `text` as a value gives: the value of the document that
/// `serde_json` reads from it, or `MalformedJson` where it reads none or
/// the document cannot be held as a value.
pub open spec fn parsed_value(text: Seq<char>) -> Result<ValueView, ParseErrorView> {
    match parsed_document(text) {
        Some(d) => if document_readable(d) {
            Ok(document_value(d))
        } else {
            Err(ParseErrorView::MalformedJson)
        },
        None => Err(ParseErrorView::MalformedJson),
    }
}

impl Document {
    /// Reads `text` as a JSON document.
    pub fn parse(text: &str) -> (r: Result<Document, ParseError>)
        ensures
            match r {
                Ok(d) => parsed_document(text@) == Some(document_view(d)),
                Err(e) => parsed_document(text@) is None && e@ == ParseErrorView::MalformedJson,
            },
    {
        match Document::from_text(text) {
            Ok(d) => Ok(d),
            Err(_) => Err(ParseError::MalformedJson),
        }
    }
}

impl Value {
    /// Reads `text` as a value.
    pub fn parse(text: &str) -> (r: Result<Value, ParseError>)
        ensures
            match r {
                Ok(v) => parsed_value(text@) == Ok::<ValueView, ParseErrorView>(v@) && valid_value(
                    v@,
                ),
                Err(e) => parsed_value(text@) == Err::<ValueView, ParseErrorView>(e@),
            },
    {
        match Document::parse(text) {
            Ok(d) => parse_model_value(d),
            Err(e) => Err(e),
        }
    }
}

/// Reads `properties` as the members of an object. A text that is no JSON
/// object is refused as malformed.
pub fn parse_properties(properties: &str) -> (r: Result<ObjectValue, ParseError>)
    ensures
        match r {
            Ok(o) => parsed_value(properties@) == Ok::<ValueView, ParseErrorView>(
                ValueView::Object(o@),
            ) && valid_value(ValueView::Object(o@)),
            Err(e) => e@ == ParseErrorView::MalformedJson && !(parsed_value(properties@) matches Ok(
                v,
            ) && v is Object),
        },
{
    match Value::parse(properties) {
        Ok(Value::ObjectValue(o)) => Ok(o),
        Ok(_) => Err(ParseError::MalformedJson),
        Err(_) => Err(ParseError::MalformedJson),
    }
}

} // verus!
