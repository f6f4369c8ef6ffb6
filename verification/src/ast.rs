//! The expression tree built from a filter query, and its mathematical
//! model.

use vstd::prelude::*;

verus! {

/// The comparison operators of the query language. A closed enumeration:
/// every surface operator resolves to exactly one of these.
#[derive(Debug, Clone, Copy, PartialEq, Eq, Structural)]
pub enum Operator {
    /// `=`
    Eq,
    /// `!=` or `<>`
    Neq,
    /// `>`
    Gt,
    /// `>=`
    Gte,
    /// `<`
    Lt,
    /// `<=`
    Lte,
    /// `like`
    Like,
    /// `in`
    In,
    /// `not in`
    NotIn,
}

/// A parsed filter expression. `And`/`Or` nodes always have exactly two
/// children: chains such as `a=1 and b=2 and c=3` fold into left-leaning
/// binary nests. A comparison leaf stores the field and the value as the
/// verbatim source text; a list value keeps its surrounding parenthesis
/// pair, which the compiler strips.
#[derive(Debug, PartialEq)]
pub enum Expression {
    /// `field op value`
    Comparison(String, Operator, String),
    /// `left and right`
    And(Box<Expression>, Box<Expression>),
    /// `left or right`
    Or(Box<Expression>, Box<Expression>),
}

/// The mathematical model of an [`Expression`]: the same tree with the
/// field and value text as character sequences.
#[verifier::ext_equal]
pub enum ExprModel {
    Comparison(Seq<char>, Operator, Seq<char>),
    And(Box<ExprModel>, Box<ExprModel>),
    Or(Box<ExprModel>, Box<ExprModel>),
}

impl View for Expression {
    type V = ExprModel;

    open spec fn view(&self) -> ExprModel {
        expr_model(*self)
    }
}

/// The model of an expression.
pub open spec fn expr_model(e: Expression) -> ExprModel
    decreases e,
{
    match e {
        Expression::Comparison(f, op, v) => ExprModel::Comparison(f@, op, v@),
        Expression::And(l, r) => ExprModel::And(
            Box::new(expr_model(*l)),
            Box::new(expr_model(*r)),
        ),
        Expression::Or(l, r) => ExprModel::Or(
            Box::new(expr_model(*l)),
            Box::new(expr_model(*r)),
        ),
    }
}

} // verus!
