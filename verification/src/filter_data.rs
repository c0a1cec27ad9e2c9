//! Filters as SQL predicates. A compiled predicate holds a placeholder for
//! every value to compare with; the values themselves are handed to the
//! database apart from the text.

use crate::filter::{
    operands_view, Element, ElementView, Expression, ExpressionView, Filter, FilterView,
};
use crate::parser::{ParseError, ParseErrorView};
use crate::text::{nat_text, push_nat, text_eq};
use vstd::prelude::*;
use vstd::string::StringExecFns;

verus! {

/// A predicate with placeholders `$1`, `$2`, ... and the parameters to bind
/// to them, in that order.
pub struct SqlPredicate {
    pub text: String,
    pub parameters: Vec<Element>,
}

/// The model of a predicate.
pub struct SqlPredicateView {
    pub text: Seq<char>,
    pub parameters: Seq<ElementView>,
}

/// The models of `parameters`, in order.
pub open spec fn parameters_view(parameters: Seq<Element>) -> Seq<ElementView> {
    Seq::new(parameters.len(), |i: int| parameters[i]@)
}

/// The texts of `names`, in order.
pub open spec fn names_view(names: Seq<String>) -> Seq<Seq<char>> {
    Seq::new(names.len(), |i: int| names[i]@)
}

impl View for SqlPredicate {
    type V = SqlPredicateView;

    open spec fn view(&self) -> SqlPredicateView {
        SqlPredicateView { text: self.text@, parameters: parameters_view(self.parameters@) }
    }
}

/// The placeholder for the parameter number `n`.
pub open spec fn placeholder(n: nat) -> Seq<char> {
    "$"@ + nat_text(n)
}

/// The predicate of a comparison of `field` by `operator`, where `bound`
/// parameters are bound before it.
pub open spec fn comparison_sql(
    field: Seq<char>,
    operator: Seq<char>,
    value: ElementView,
    allowed: Seq<Seq<char>>,
    bound: nat,
) -> Result<SqlPredicateView, ParseErrorView> {
    if allowed.contains(field) {
        Ok(
            SqlPredicateView {
                text: field + operator + placeholder(bound + 1),
                parameters: seq![value],
            },
        )
    } else {
        Err(ParseErrorView::UnknownField(field))
    }
}

/// The predicate of the expression `e`, where `bound` parameters are bound
/// before it and `allowed` are the fields that may be compared.
/// Placeholders are numbered from left to right.
pub open spec fn expression_sql(e: ExpressionView, allowed: Seq<Seq<char>>, bound: nat) -> Result<
    SqlPredicateView,
    ParseErrorView,
>
    decreases e, 0nat,
{
    match e {
        ExpressionView::Equals { field, value } => comparison_sql(
            field,
            " = "@,
            value,
            allowed,
            bound,
        ),
        ExpressionView::NotEquals { field, value } => comparison_sql(
            field,
            " <> "@,
            value,
            allowed,
            bound,
        ),
        ExpressionView::And(operands) => if operands.len() == 0 {
            Err(ParseErrorView::EmptyExpressionList)
        } else {
            operands_sql(operands, operands.len(), " AND "@, allowed, bound)
        },
        ExpressionView::Or(operands) => if operands.len() == 0 {
            Err(ParseErrorView::EmptyExpressionList)
        } else {
            operands_sql(operands, operands.len(), " OR "@, allowed, bound)
        },
    }
}

/// The predicates of the first `n` of `operands`, each in parentheses,
/// joined by `separator`; or the error of the first of them that has none.
pub open spec fn operands_sql(
    operands: Seq<ExpressionView>,
    n: nat,
    separator: Seq<char>,
    allowed: Seq<Seq<char>>,
    bound: nat,
) -> Result<SqlPredicateView, ParseErrorView>
    decreases operands, n,
{
    if n == 0 || n > operands.len() {
        Ok(SqlPredicateView { text: Seq::empty(), parameters: Seq::empty() })
    } else {
        match operands_sql(operands, (n - 1) as nat, separator, allowed, bound) {
            Ok(before) => match expression_sql(
                operands[n - 1],
                allowed,
                bound + before.parameters.len(),
            ) {
                Ok(operand) => Ok(
                    SqlPredicateView {
                        text: before.text + (if n == 1 {
                            Seq::<char>::empty()
                        } else {
                            separator
                        }) + "("@ + operand.text + ")"@,
                        parameters: before.parameters + operand.parameters,
                    },
                ),
                Err(e) => Err(e),
            },
            Err(e) => Err(e),
        }
    }
}

/// The predicate of a filter's expression.
pub open spec fn filter_sql(f: FilterView, allowed: Seq<Seq<char>>) -> Result<
    SqlPredicateView,
    ParseErrorView,
> {
    expression_sql(f.expression, allowed, 0)
}

/// What can be compiled to a predicate.
pub trait IntoSQLQuery {
    /// The predicate that `into_sql_query` gives.
    spec fn sql_query(&self, allowed: Seq<Seq<char>>) -> Result<SqlPredicateView, ParseErrorView>;

    /// Compiles to a predicate over the fields `allowed`.
    fn into_sql_query(&self, allowed: &Vec<String>) -> (r: Result<SqlPredicate, ParseError>)
        ensures
            match r {
                Ok(p) => self.sql_query(names_view(allowed@)) == Ok::<
                    SqlPredicateView,
                    ParseErrorView,
                >(p@),
                Err(e) => self.sql_query(names_view(allowed@)) == Err::<
                    SqlPredicateView,
                    ParseErrorView,
                >(e@),
            },
    ;
}

fn is_allowed(allowed: &Vec<String>, field: &str) -> (r: bool)
    ensures
        r == names_view(allowed@).contains(field@),
{
    let mut i: usize = 0;
    while i < allowed.len()
        invariant
            0 <= i <= allowed.len(),
            forall|k: int| 0 <= k < i ==> names_view(allowed@)[k] != field@,
        decreases allowed.len() - i,
    {
        if text_eq(allowed[i].as_str(), field) {
            assert(names_view(allowed@)[i as int] == field@);
            return true;
        }
        i = i + 1;
    }
    false
}

fn push_comparison(
    field: &String,
    operator: &str,
    value: &Element,
    allowed: &Vec<String>,
    out: &mut String,
    parameters: &mut Vec<Element>,
) -> (r: Result<(), ParseError>)
    ensures
        match r {
            Ok(_) => {
                let q = comparison_sql(
                    field@,
                    operator@,
                    value@,
                    names_view(allowed@),
                    old(parameters).len() as nat,
                );
                &&& q is Ok
                &&& final(out)@ == old(out)@ + q->Ok_0.text
                &&& parameters_view(final(parameters)@) == parameters_view(old(parameters)@)
                    + q->Ok_0.parameters
            },
            Err(e) => comparison_sql(
                field@,
                operator@,
                value@,
                names_view(allowed@),
                old(parameters).len() as nat,
            ) == Err::<SqlPredicateView, ParseErrorView>(e@),
        },
{
    if !is_allowed(allowed, field.as_str()) {
        return Err(ParseError::UnknownField(field.clone()));
    }
    let number: u128 = parameters.len() as u128 + 1;
    out.append(field.as_str());
    out.append(operator);
    out.append("$");
    push_nat(out, number);
    parameters.push(Element { value: value.value.clone(), e_type: value.e_type });
    proof {
        assert(out@ == old(out)@ + (field@ + operator@ + placeholder(number as nat)));
        assert(parameters_view(parameters@) =~= parameters_view(old(parameters)@) + seq![value@]);
    }
    Ok(())
}

fn push_operands(
    operands: &Vec<Expression>,
    separator: &str,
    allowed: &Vec<String>,
    out: &mut String,
    parameters: &mut Vec<Element>,
) -> (r: Result<(), ParseError>)
    ensures
        match r {
            Ok(_) => {
                let q = operands_sql(
                    operands_view(operands@),
                    operands.len() as nat,
                    separator@,
                    names_view(allowed@),
                    old(parameters).len() as nat,
                );
                &&& q is Ok
                &&& final(out)@ == old(out)@ + q->Ok_0.text
                &&& parameters_view(final(parameters)@) == parameters_view(old(parameters)@)
                    + q->Ok_0.parameters
            },
            Err(e) => operands_sql(
                operands_view(operands@),
                operands.len() as nat,
                separator@,
                names_view(allowed@),
                old(parameters).len() as nat,
            ) == Err::<SqlPredicateView, ParseErrorView>(e@),
        },
    decreases operands,
{
    let ghost views = operands_view(operands@);
    let ghost names = names_view(allowed@);
    let ghost bound = old(parameters).len() as nat;
    let mut i: usize = 0;
    assert(old(out)@ + Seq::<char>::empty() == old(out)@);
    assert(parameters_view(old(parameters)@) + Seq::<ElementView>::empty() == parameters_view(
        old(parameters)@,
    ));
    while i < operands.len()
        invariant
            0 <= i <= operands.len(),
            views == operands_view(operands@),
            names == names_view(allowed@),
            bound == old(parameters).len(),
            operands_sql(views, i as nat, separator@, names, bound) is Ok,
            out@ == old(out)@ + operands_sql(views, i as nat, separator@, names, bound)->Ok_0.text,
            parameters_view(parameters@) == parameters_view(old(parameters)@) + operands_sql(
                views,
                i as nat,
                separator@,
                names,
                bound,
            )->Ok_0.parameters,
        decreases operands.len() - i,
    {
        let ghost before = operands_sql(views, i as nat, separator@, names, bound)->Ok_0;
        let ghost out_before = out@;
        let ghost parameters_before = parameters_view(parameters@);
        assert(views[i as int] == operands@[i as int]@);
        assert(parameters.len() == bound + before.parameters.len()) by {
            assert(parameters_view(parameters@).len() == parameters.len());
            assert(parameters_view(old(parameters)@).len() == bound);
        }
        if i > 0 {
            out.append(separator);
        }
        out.append("(");
        match push_expression(&operands[i], allowed, out, parameters) {
            Ok(_) => {},
            Err(e) => {
                proof {
                    let n = operands.len() as nat;
                    lemma_first_error(views, i as nat, n, separator@, names, bound);
                }
                return Err(e);
            },
        }
        out.append(")");
        proof {
            let bound_before = bound + before.parameters.len();
            let operand = expression_sql(views[i as int], names, bound_before)->Ok_0;
            let joint = if i == 0 {
                Seq::<char>::empty()
            } else {
                separator@
            };
            assert(out@ == out_before + joint + "("@ + operand.text + ")"@);
            assert(out@ == old(out)@ + (before.text + joint + "("@ + operand.text + ")"@));
            assert(parameters_view(parameters@) == parameters_view(old(parameters)@) + (
            before.parameters + operand.parameters));
        }
        i = i + 1;
    }
    Ok(())
}

/// Where compiling the first `k + 1` operands fails on the last of them,
/// compiling any more of them fails in the same way.
proof fn lemma_first_error(
    operands: Seq<ExpressionView>,
    k: nat,
    n: nat,
    separator: Seq<char>,
    allowed: Seq<Seq<char>>,
    bound: nat,
)
    requires
        k < n <= operands.len(),
        operands_sql(operands, k, separator, allowed, bound) is Ok,
        expression_sql(
            operands[k as int],
            allowed,
            bound + operands_sql(operands, k, separator, allowed, bound)->Ok_0.parameters.len(),
        ) is Err,
    ensures
        operands_sql(operands, n, separator, allowed, bound) == Err::<
            SqlPredicateView,
            ParseErrorView,
        >(
            expression_sql(
                operands[k as int],
                allowed,
                bound + operands_sql(operands, k, separator, allowed, bound)->Ok_0.parameters.len(),
            )->Err_0,
        ),
    decreases n,
{
    if n > k + 1 {
        lemma_first_error(operands, k, (n - 1) as nat, separator, allowed, bound);
    }
}

fn push_expression(
    e: &Expression,
    allowed: &Vec<String>,
    out: &mut String,
    parameters: &mut Vec<Element>,
) -> (r: Result<(), ParseError>)
    ensures
        match r {
            Ok(_) => {
                let q = expression_sql(e@, names_view(allowed@), old(parameters).len() as nat);
                &&& q is Ok
                &&& final(out)@ == old(out)@ + q->Ok_0.text
                &&& parameters_view(final(parameters)@) == parameters_view(old(parameters)@)
                    + q->Ok_0.parameters
            },
            Err(e2) => expression_sql(e@, names_view(allowed@), old(parameters).len() as nat)
                == Err::<SqlPredicateView, ParseErrorView>(e2@),
        },
    decreases e,
{
    match e {
        Expression::Equals(c) => push_comparison(
            &c.field,
            " = ",
            &c.value,
            allowed,
            out,
            parameters,
        ),
        Expression::NotEquals(c) => push_comparison(
            &c.field,
            " <> ",
            &c.value,
            allowed,
            out,
            parameters,
        ),
        Expression::And(a) => {
            if a.0.len() == 0 {
                return Err(ParseError::EmptyExpressionList);
            }
            assert(decreases_to!(*e => e->And_0));
            push_operands(&a.0, " AND ", allowed, out, parameters)
        },
        Expression::Or(o) => {
            if o.0.len() == 0 {
                return Err(ParseError::EmptyExpressionList);
            }
            assert(decreases_to!(*e => e->Or_0));
            push_operands(&o.0, " OR ", allowed, out, parameters)
        },
    }
}

/// Compiles the filter's expression to a predicate over the fields
/// `allowed`. A comparison of any other field is refused, and so is a
/// conjunction or disjunction without operands.
pub fn compile(filter: &Filter, allowed: &Vec<String>) -> (r: Result<SqlPredicate, ParseError>)
    ensures
        match r {
            Ok(p) => filter_sql(filter@, names_view(allowed@)) == Ok::<
                SqlPredicateView,
                ParseErrorView,
            >(p@),
            Err(e) => filter_sql(filter@, names_view(allowed@)) == Err::<
                SqlPredicateView,
                ParseErrorView,
            >(e@),
        },
{
    let mut text = String::new();
    let mut parameters: Vec<Element> = Vec::new();
    assert(parameters_view(parameters@) =~= Seq::<ElementView>::empty());
    match push_expression(&filter.expression, allowed, &mut text, &mut parameters) {
        Ok(_) => {
            let p = SqlPredicate { text, parameters };
            proof {
                let q = filter_sql(filter@, names_view(allowed@))->Ok_0;
                assert(p@.text =~= q.text);
                assert(p@.parameters =~= q.parameters);
            }
            Ok(p)
        },
        Err(e) => Err(e),
    }
}

impl IntoSQLQuery for Filter {
    open spec fn sql_query(&self, allowed: Seq<Seq<char>>) -> Result<
        SqlPredicateView,
        ParseErrorView,
    > {
        filter_sql(self@, allowed)
    }

    fn into_sql_query(&self, allowed: &Vec<String>) -> (r: Result<SqlPredicate, ParseError>) {
        compile(self, allowed)
    }
}

/// A conjunction or disjunction without operands has no predicate,
/// whatever the allowed fields are.
pub proof fn lemma_empty_list_is_refused(allowed: Seq<Seq<char>>, bound: nat)
    ensures
        expression_sql(ExpressionView::And(Seq::empty()), allowed, bound) == Err::<
            SqlPredicateView,
            ParseErrorView,
        >(ParseErrorView::EmptyExpressionList),
        expression_sql(ExpressionView::Or(Seq::empty()), allowed, bound) == Err::<
            SqlPredicateView,
            ParseErrorView,
        >(ParseErrorView::EmptyExpressionList),
{
}

/// The values that an expression compares with, from left to right.
pub open spec fn leaves(e: ExpressionView) -> Seq<ElementView>
    decreases e, 0nat,
{
    match e {
        ExpressionView::Equals { field, value } => seq![value],
        ExpressionView::NotEquals { field, value } => seq![value],
        ExpressionView::And(operands) => operands_leaves(operands, operands.len()),
        ExpressionView::Or(operands) => operands_leaves(operands, operands.len()),
    }
}

/// The values that the first `n` of `operands` compare with, from left to
/// right.
pub open spec fn operands_leaves(operands: Seq<ExpressionView>, n: nat) -> Seq<ElementView>
    decreases operands, n,
{
    if n == 0 || n > operands.len() {
        Seq::empty()
    } else {
        operands_leaves(operands, (n - 1) as nat) + leaves(operands[n - 1])
    }
}

/// Whether two expressions differ at most in the values that they compare
/// with.
pub open spec fn same_but_values(e1: ExpressionView, e2: ExpressionView) -> bool
    decreases e1,
{
    match (e1, e2) {
        (
            ExpressionView::Equals { field: f1, value: v1 },
            ExpressionView::Equals { field: f2, value: v2 },
        ) => f1 == f2,
        (
            ExpressionView::NotEquals { field: f1, value: v1 },
            ExpressionView::NotEquals { field: f2, value: v2 },
        ) => f1 == f2,
        (ExpressionView::And(o1), ExpressionView::And(o2)) => o1.len() == o2.len() && forall|
            i: int,
        |
            0 <= i < o1.len() ==> same_but_values(#[trigger] o1[i], o2[i]),
        (ExpressionView::Or(o1), ExpressionView::Or(o2)) => o1.len() == o2.len() && forall|i: int|
            0 <= i < o1.len() ==> same_but_values(#[trigger] o1[i], o2[i]),
        _ => false,
    }
}

/// Whether two outcomes of compiling agree in all but the parameters'
/// values: the same text with as many parameters, or the same error.
pub open spec fn same_text(
    q1: Result<SqlPredicateView, ParseErrorView>,
    q2: Result<SqlPredicateView, ParseErrorView>,
) -> bool {
    match (q1, q2) {
        (Ok(first), Ok(second)) => first.text == second.text && first.parameters.len()
            == second.parameters.len(),
        (Err(x), Err(y)) => x == y,
        _ => false,
    }
}

/// The parameters of a compiled expression are the values that it compares
/// with, from left to right, and nothing else.
pub proof fn lemma_parameters_are_leaves(e: ExpressionView, allowed: Seq<Seq<char>>, bound: nat)
    requires
        expression_sql(e, allowed, bound) is Ok,
    ensures
        expression_sql(e, allowed, bound)->Ok_0.parameters == leaves(e),
    decreases e, 0nat,
{
    match e {
        ExpressionView::And(operands) => {
            lemma_operands_parameters(operands, operands.len(), " AND "@, allowed, bound);
        },
        ExpressionView::Or(operands) => {
            lemma_operands_parameters(operands, operands.len(), " OR "@, allowed, bound);
        },
        _ => {},
    }
}

proof fn lemma_operands_parameters(
    operands: Seq<ExpressionView>,
    n: nat,
    separator: Seq<char>,
    allowed: Seq<Seq<char>>,
    bound: nat,
)
    requires
        n <= operands.len(),
        operands_sql(operands, n, separator, allowed, bound) is Ok,
    ensures
        operands_sql(operands, n, separator, allowed, bound)->Ok_0.parameters == operands_leaves(
            operands,
            n,
        ),
    decreases operands, n,
{
    if n > 0 {
        let before = operands_sql(operands, (n - 1) as nat, separator, allowed, bound);
        lemma_operands_parameters(operands, (n - 1) as nat, separator, allowed, bound);
        lemma_parameters_are_leaves(
            operands[n - 1],
            allowed,
            bound + before->Ok_0.parameters.len(),
        );
    }
}

/// The text of a predicate does not depend on the values that are compared
/// with: two expressions that differ at most in those values compile to the
/// same text, or fail in the same way.
pub proof fn lemma_text_ignores_values(
    e1: ExpressionView,
    e2: ExpressionView,
    allowed: Seq<Seq<char>>,
    bound: nat,
)
    requires
        same_but_values(e1, e2),
    ensures
        same_text(expression_sql(e1, allowed, bound), expression_sql(e2, allowed, bound)),
    decreases e1, 0nat,
{
    match (e1, e2) {
        (ExpressionView::And(o1), ExpressionView::And(o2)) => {
            lemma_operands_text(o1, o2, o1.len(), " AND "@, allowed, bound);
        },
        (ExpressionView::Or(o1), ExpressionView::Or(o2)) => {
            lemma_operands_text(o1, o2, o1.len(), " OR "@, allowed, bound);
        },
        _ => {},
    }
}

proof fn lemma_operands_text(
    o1: Seq<ExpressionView>,
    o2: Seq<ExpressionView>,
    n: nat,
    separator: Seq<char>,
    allowed: Seq<Seq<char>>,
    bound: nat,
)
    requires
        n <= o1.len(),
        o1.len() == o2.len(),
        forall|i: int| 0 <= i < o1.len() ==> same_but_values(#[trigger] o1[i], o2[i]),
    ensures
        same_text(
            operands_sql(o1, n, separator, allowed, bound),
            operands_sql(o2, n, separator, allowed, bound),
        ),
    decreases o1, n,
{
    if n > 0 {
        lemma_operands_text(o1, o2, (n - 1) as nat, separator, allowed, bound);
        let before = operands_sql(o1, (n - 1) as nat, separator, allowed, bound);
        if before is Ok {
            lemma_text_ignores_values(
                o1[n - 1],
                o2[n - 1],
                allowed,
                bound + before->Ok_0.parameters.len(),
            );
        }
    }
}

/// Whether an expression compares no field but those of `allowed`.
pub open spec fn compares_only(e: ExpressionView, allowed: Seq<Seq<char>>) -> bool
    decreases e,
{
    match e {
        ExpressionView::Equals { field, value } => allowed.contains(field),
        ExpressionView::NotEquals { field, value } => allowed.contains(field),
        ExpressionView::And(operands) => forall|i: int|
            0 <= i < operands.len() ==> compares_only(#[trigger] operands[i], allowed),
        ExpressionView::Or(operands) => forall|i: int|
            0 <= i < operands.len() ==> compares_only(#[trigger] operands[i], allowed),
    }
}

/// An expression that compiles compares no field but those that are
/// allowed.
pub proof fn lemma_compiled_fields_are_allowed(
    e: ExpressionView,
    allowed: Seq<Seq<char>>,
    bound: nat,
)
    requires
        expression_sql(e, allowed, bound) is Ok,
    ensures
        compares_only(e, allowed),
    decreases e, 0nat,
{
    match e {
        ExpressionView::And(operands) => {
            lemma_operands_fields(operands, operands.len(), " AND "@, allowed, bound);
        },
        ExpressionView::Or(operands) => {
            lemma_operands_fields(operands, operands.len(), " OR "@, allowed, bound);
        },
        _ => {},
    }
}

proof fn lemma_operands_fields(
    operands: Seq<ExpressionView>,
    n: nat,
    separator: Seq<char>,
    allowed: Seq<Seq<char>>,
    bound: nat,
)
    requires
        n <= operands.len(),
        operands_sql(operands, n, separator, allowed, bound) is Ok,
    ensures
        forall|i: int| 0 <= i < n ==> compares_only(#[trigger] operands[i], allowed),
    decreases operands, n,
{
    if n > 0 {
        let before = operands_sql(operands, (n - 1) as nat, separator, allowed, bound);
        lemma_operands_fields(operands, (n - 1) as nat, separator, allowed, bound);
        lemma_compiled_fields_are_allowed(
            operands[n - 1],
            allowed,
            bound + before->Ok_0.parameters.len(),
        );
    }
}

} // verus!
