//! The filter language: a tree of comparisons, conjunctions and
//! disjunctions over the fields of one collection, read from a JSON query.

use crate::json::Json;
use crate::parser::{missing_field, parsed_value, ParseError, ParseErrorView};
use crate::text::{lower_text, text_eq, to_lower};
use crate::value::{
    field, items_view, lemma_field_smaller, number_text, NumberView, NumericalValue, Value,
    ValueTrait, ValueView,
};
use vstd::prelude::*;

verus! {

/// Whether a comparison's value was written as a string or as a number.
#[derive(Clone, Copy, PartialEq, Eq, Structural)]
pub enum ElementType {
    String,
    Number,
}

/// A value to compare a field with, held as text.
pub struct Element {
    pub value: String,
    pub e_type: ElementType,
}

pub struct Equals {
    pub field: String,
    pub value: Element,
}

pub struct NotEquals {
    pub field: String,
    pub value: Element,
}

pub struct And(pub Vec<Expression>);

pub struct Or(pub Vec<Expression>);

pub enum Expression {
    Equals(Equals),
    NotEquals(NotEquals),
    And(And),
    Or(Or),
}

/// A filter: an expression over the features of one collection.
pub struct Filter {
    pub collection_id: i64,
    pub expression: Expression,
}

/// The model of an element.
pub struct ElementView {
    pub value: Seq<char>,
    pub e_type: ElementType,
}

/// The model of an expression.
pub enum ExpressionView {
    Equals { field: Seq<char>, value: ElementView },
    NotEquals { field: Seq<char>, value: ElementView },
    And(Seq<ExpressionView>),
    Or(Seq<ExpressionView>),
}

/// The model of a filter.
pub struct FilterView {
    pub collection_id: i64,
    pub expression: ExpressionView,
}

impl View for Element {
    type V = ElementView;

    open spec fn view(&self) -> ElementView {
        ElementView { value: self.value@, e_type: self.e_type }
    }
}

/// The models of `operands`, in order.
pub open spec fn operands_view(operands: Seq<Expression>) -> Seq<ExpressionView>
    decreases operands,
{
    Seq::new(
        operands.len(),
        |i: int|
            if 0 <= i < operands.len() {
                operands[i]@
            } else {
                ExpressionView::And(Seq::empty())
            },
    )
}

impl View for Expression {
    type V = ExpressionView;

    open spec fn view(&self) -> ExpressionView
        decreases self,
    {
        match self {
            Expression::Equals(e) => ExpressionView::Equals { field: e.field@, value: e.value@ },
            Expression::NotEquals(e) => ExpressionView::NotEquals {
                field: e.field@,
                value: e.value@,
            },
            Expression::And(a) => ExpressionView::And(operands_view(a.0@)),
            Expression::Or(o) => ExpressionView::Or(operands_view(o.0@)),
        }
    }
}

impl View for Filter {
    type V = FilterView;

    open spec fn view(&self) -> FilterView {
        FilterView { collection_id: self.collection_id, expression: self.expression@ }
    }
}

/// The element that the value `v` is: the text of a string, or the text of
/// a number.
pub open spec fn element_of_value(v: Option<ValueView>) -> Result<ElementView, ParseErrorView> {
    match v {
        Some(ValueView::String(s)) => Ok(ElementView { value: s, e_type: ElementType::String }),
        Some(ValueView::Number(n)) => Ok(
            ElementView { value: number_text(n), e_type: ElementType::Number },
        ),
        _ => Err(ParseErrorView::UnsupportedElementType),
    }
}

/// The field and the element of the comparison that the value `v`
/// describes: a string under `field`, a string or a number under `value`.
pub open spec fn comparison_of_value(v: ValueView) -> Result<
    (Seq<char>, ElementView),
    ParseErrorView,
> {
    match field(v, "field"@) {
        Some(ValueView::String(name)) => match element_of_value(field(v, "value"@)) {
            Ok(element) => Ok((name, element)),
            Err(e) => Err(e),
        },
        _ => Err(ParseErrorView::MissingField("field"@)),
    }
}

/// The expression that the value `v` describes. Its kind is the string
/// under `type`, read without regard to the case of its letters.
pub open spec fn expression_of_value(v: ValueView) -> Result<ExpressionView, ParseErrorView>
    decreases v, 0nat,
{
    match field(v, "type"@) {
        Some(ValueView::String(tag)) => {
            let kind = lower_text(tag);
            if kind == "equals"@ {
                match comparison_of_value(v) {
                    Ok((name, value)) => Ok(ExpressionView::Equals { field: name, value }),
                    Err(e) => Err(e),
                }
            } else if kind == "not_equals"@ {
                match comparison_of_value(v) {
                    Ok((name, value)) => Ok(ExpressionView::NotEquals { field: name, value }),
                    Err(e) => Err(e),
                }
            } else if kind == "and"@ || kind == "or"@ {
                match field(v, "expressions"@) {
                    Some(ValueView::Array(items)) => if items.len() == 0 {
                        Err(ParseErrorView::EmptyExpressionList)
                    } else {
                        proof {
                            lemma_field_smaller(v, "expressions"@);
                        }
                        match expressions_of_values(items, items.len()) {
                            Ok(operands) => if kind == "and"@ {
                                Ok(ExpressionView::And(operands))
                            } else {
                                Ok(ExpressionView::Or(operands))
                            },
                            Err(e) => Err(e),
                        }
                    },
                    _ => Err(ParseErrorView::MissingField("expressions"@)),
                }
            } else {
                Err(ParseErrorView::UnsupportedExpressionType(tag))
            }
        },
        _ => Err(ParseErrorView::MissingField("type"@)),
    }
}

/// The expressions that the first `n` of the values `items` describe, or
/// the error of the first of them that describes none.
pub open spec fn expressions_of_values(items: Seq<ValueView>, n: nat) -> Result<
    Seq<ExpressionView>,
    ParseErrorView,
>
    decreases items, n,
{
    if n == 0 || n > items.len() {
        Ok(Seq::empty())
    } else {
        match expressions_of_values(items, (n - 1) as nat) {
            Ok(operands) => match expression_of_value(items[n - 1]) {
                Ok(e) => Ok(operands.push(e)),
                Err(e) => Err(e),
            },
            Err(e) => Err(e),
        }
    }
}

/// The filter that the value `v` describes: an integer under
/// `collection_id`, which is looked for first, and an object under `where`.
pub open spec fn filter_of_value(v: ValueView) -> Result<FilterView, ParseErrorView> {
    match field(v, "collection_id"@) {
        Some(ValueView::Number(NumberView::Integer(id))) => match field(v, "where"@) {
            Some(ValueView::Object(members)) => match expression_of_value(
                ValueView::Object(members),
            ) {
                Ok(expression) => Ok(FilterView { collection_id: id as i64, expression }),
                Err(e) => Err(e),
            },
            _ => Err(ParseErrorView::MissingField("where"@)),
        },
        _ => Err(ParseErrorView::MissingField("collection_id"@)),
    }
}

/// The filter that the JSON text `text` describes.
pub open spec fn filter_of_text(text: Seq<char>) -> Result<FilterView, ParseErrorView> {
    match parsed_value(text) {
        Ok(v) => filter_of_value(v),
        Err(e) => Err(e),
    }
}

fn parse_element(value: Option<&Value>) -> (r: Result<Element, ParseError>)
    ensures
        match r {
            Ok(element) => element_of_value(option_view(value)) == Ok::<
                ElementView,
                ParseErrorView,
            >(element@),
            Err(e) => element_of_value(option_view(value)) == Err::<ElementView, ParseErrorView>(
                e@,
            ),
        },
{
    match value {
        Some(Value::StringValue(s)) => Ok(
            Element { value: s.value.clone(), e_type: ElementType::String },
        ),
        Some(Value::NumberValue(n)) => Ok(
            Element { value: n.to_geo_json(), e_type: ElementType::Number },
        ),
        _ => Err(ParseError::UnsupportedElementType),
    }
}

/// The model of a value that may be absent.
pub open spec fn option_view(value: Option<&Value>) -> Option<ValueView> {
    match value {
        Some(v) => Some(v@),
        None => None,
    }
}

fn parse_comparison(value: &Value) -> (r: Result<(String, Element), ParseError>)
    ensures
        match r {
            Ok((name, element)) => comparison_of_value(value@) == Ok::<
                (Seq<char>, ElementView),
                ParseErrorView,
            >((name@, element@)),
            Err(e) => comparison_of_value(value@) == Err::<
                (Seq<char>, ElementView),
                ParseErrorView,
            >(e@),
        },
{
    match value.member("field") {
        Some(Value::StringValue(name)) => match parse_element(value.member("value")) {
            Ok(element) => Ok((name.value.clone(), element)),
            Err(e) => Err(e),
        },
        _ => Err(missing_field("field")),
    }
}

fn parse_expressions(items: &Vec<Value>) -> (r: Result<Vec<Expression>, ParseError>)
    ensures
        match r {
            Ok(operands) => expressions_of_values(items_view(items@), items.len() as nat) == Ok::<
                Seq<ExpressionView>,
                ParseErrorView,
            >(operands_view(operands@)),
            Err(e) => expressions_of_values(items_view(items@), items.len() as nat) == Err::<
                Seq<ExpressionView>,
                ParseErrorView,
            >(e@),
        },
    decreases items,
{
    let mut out: Vec<Expression> = Vec::new();
    let mut i: usize = 0;
    assert(operands_view(out@) =~= Seq::<ExpressionView>::empty());
    while i < items.len()
        invariant
            0 <= i <= items.len(),
            expressions_of_values(items_view(items@), i as nat) == Ok::<
                Seq<ExpressionView>,
                ParseErrorView,
            >(operands_view(out@)),
        decreases items.len() - i,
    {
        assert(items_view(items@)[i as int] == items@[i as int]@);
        match Expression::parse(&items[i]) {
            Ok(e) => {
                let ghost before = operands_view(out@);
                out.push(e);
                assert(operands_view(out@) =~= before.push(e@));
            },
            Err(e) => {
                proof {
                    lemma_first_error(items_view(items@), i as nat, items.len() as nat);
                }
                return Err(e);
            },
        }
        i = i + 1;
    }
    Ok(out)
}

/// Where reading the first `k + 1` values fails on the last of them,
/// reading any more of them fails in the same way.
proof fn lemma_first_error(items: Seq<ValueView>, k: nat, n: nat)
    requires
        k < n <= items.len(),
        expressions_of_values(items, k) is Ok,
        expression_of_value(items[k as int]) is Err,
    ensures
        expressions_of_values(items, n) == Err::<Seq<ExpressionView>, ParseErrorView>(
            expression_of_value(items[k as int])->Err_0,
        ),
    decreases n,
{
    if n > k + 1 {
        lemma_first_error(items, k, (n - 1) as nat);
    }
}

impl Expression {
    /// The expression that the value `value` describes.
    pub fn parse(value: &Value) -> (r: Result<Expression, ParseError>)
        ensures
            match r {
                Ok(e) => expression_of_value(value@) == Ok::<ExpressionView, ParseErrorView>(e@),
                Err(e) => expression_of_value(value@) == Err::<ExpressionView, ParseErrorView>(
                    e@,
                ),
            },
        decreases value,
    {
        let tag = match value.member("type") {
            Some(Value::StringValue(tag)) => tag,
            _ => {
                return Err(missing_field("type"));
            },
        };
        let kind = to_lower(tag.value.as_str());
        if text_eq(kind.as_str(), "equals") {
            match parse_comparison(value) {
                Ok((field, value)) => Ok(Expression::Equals(Equals { field, value })),
                Err(e) => Err(e),
            }
        } else if text_eq(kind.as_str(), "not_equals") {
            match parse_comparison(value) {
                Ok((field, value)) => Ok(Expression::NotEquals(NotEquals { field, value })),
                Err(e) => Err(e),
            }
        } else if text_eq(kind.as_str(), "and") || text_eq(kind.as_str(), "or") {
            match value.member("expressions") {
                Some(Value::ArrayValue(a)) => {
                    if a.value.len() == 0 {
                        return Err(ParseError::EmptyExpressionList);
                    }
                    proof {
                        let part = Value::ArrayValue(*a);
                        assert(decreases_to!(part => part->ArrayValue_0));
                    }
                    match parse_expressions(&a.value) {
                        Ok(operands) => if text_eq(kind.as_str(), "and") {
                            Ok(Expression::And(And(operands)))
                        } else {
                            Ok(Expression::Or(Or(operands)))
                        },
                        Err(e) => Err(e),
                    }
                },
                _ => Err(missing_field("expressions")),
            }
        } else {
            Err(ParseError::UnsupportedExpressionType(tag.value.clone()))
        }
    }
}

impl Filter {
    pub fn new(collection_id: i64, expression: Expression) -> (r: Self)
        ensures
            r@ == (FilterView { collection_id, expression: expression@ }),
    {
        Filter { collection_id, expression }
    }

    /// The filter that the value `value` describes.
    pub fn parse(value: &Value) -> (r: Result<Filter, ParseError>)
        ensures
            match r {
                Ok(f) => filter_of_value(value@) == Ok::<FilterView, ParseErrorView>(f@),
                Err(e) => filter_of_value(value@) == Err::<FilterView, ParseErrorView>(e@),
            },
    {
        let collection_id = match value.member("collection_id") {
            Some(Value::NumberValue(n)) => match &n.value {
                NumericalValue::Integer(i) => *i,
                NumericalValue::Float(_) => {
                    return Err(missing_field("collection_id"));
                },
            },
            _ => {
                return Err(missing_field("collection_id"));
            },
        };
        let part = match value.member("where") {
            Some(part) => part,
            None => {
                return Err(missing_field("where"));
            },
        };
        match part {
            Value::ObjectValue(_) => match Expression::parse(part) {
                Ok(expression) => Ok(Filter { collection_id, expression }),
                Err(e) => Err(e),
            },
            _ => Err(missing_field("where")),
        }
    }

    /// The filter that the JSON text `json` describes.
    pub fn from_json(json: &Json) -> (r: Result<Filter, ParseError>)
        ensures
            match r {
                Ok(f) => filter_of_text(json@) == Ok::<FilterView, ParseErrorView>(f@),
                Err(e) => filter_of_text(json@) == Err::<FilterView, ParseErrorView>(e@),
            },
    {
        match Value::parse(json.to_string_ref().as_str()) {
            Ok(value) => Filter::parse(&value),
            Err(e) => Err(e),
        }
    }
}

/// A value without a member `collection_id` is refused for want of it,
/// whatever else it holds.
pub proof fn lemma_filter_needs_collection(v: ValueView)
    requires
        field(v, "collection_id"@) is None,
    ensures
        filter_of_value(v) == Err::<FilterView, ParseErrorView>(
            ParseErrorView::MissingField("collection_id"@),
        ),
{
}

/// An expression whose kind is none of `equals`, `not_equals`, `and` and
/// `or` is refused with its kind as it was written.
pub proof fn lemma_unknown_kind_is_refused(v: ValueView, tag: Seq<char>)
    requires
        field(v, "type"@) == Some(ValueView::String(tag)),
        lower_text(tag) != "equals"@,
        lower_text(tag) != "not_equals"@,
        lower_text(tag) != "and"@,
        lower_text(tag) != "or"@,
    ensures
        expression_of_value(v) == Err::<ExpressionView, ParseErrorView>(
            ParseErrorView::UnsupportedExpressionType(tag),
        ),
{
}

} // verus!
