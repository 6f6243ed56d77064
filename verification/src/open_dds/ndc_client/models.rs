//! Expressions of the data connector query language.

use vstd::prelude::*;
use vstd::string::*;

use crate::json::{JsonValue, JsonView};

verus! {

/// A step through a relationship on the way to a column.
#[derive(Debug, PartialEq, Eq)]
pub struct PathElement {
    pub relationship: String,
}

/// What a comparison reads: a column, reached through a path of relationships.
#[derive(Debug, PartialEq, Eq)]
pub enum ComparisonTarget {
    Column { name: String, path: Vec<PathElement> },
}

#[derive(Debug, Clone, Copy, PartialEq, Eq, Structural)]
pub enum UnaryComparisonOperator {
    IsNull,
}

#[derive(Debug, PartialEq, Eq)]
pub enum BinaryComparisonOperator {
    Equal,
    Other { name: String },
}

/// The value a column is compared with.
#[derive(Debug, PartialEq, Eq)]
pub enum ComparisonValue {
    Scalar { value: JsonValue },
}

/// The rows a data connector answers a query with, and its aggregates.
#[derive(Debug, PartialEq, Eq)]
pub struct RowSet {
    pub aggregates: Option<Vec<(String, JsonValue)>>,
    pub rows: Option<Vec<Vec<(String, JsonValue)>>>,
}

/// The value of an argument of a collection or a function.
#[derive(Debug, PartialEq, Eq)]
pub enum Argument {
    Variable { name: String },
    Literal { value: JsonValue },
}

/// The abstract value of an argument.
pub enum ArgumentView {
    Variable(Seq<char>),
    Literal(JsonView),
}

impl View for Argument {
    type V = ArgumentView;

    open spec fn view(&self) -> ArgumentView {
        match self {
            Argument::Variable { name } => ArgumentView::Variable(name@),
            Argument::Literal { value } => ArgumentView::Literal(value@),
        }
    }
}

/// A boolean expression over the rows of a collection.
#[derive(Debug, PartialEq, Eq)]
pub enum Expression {
    And { expressions: Vec<Expression> },
    Or { expressions: Vec<Expression> },
    Not { expression: Box<Expression> },
    UnaryComparisonOperator { column: ComparisonTarget, operator: UnaryComparisonOperator },
    BinaryComparisonOperator {
        column: ComparisonTarget,
        operator: BinaryComparisonOperator,
        value: ComparisonValue,
    },
}

/// The abstract value of a column target: its name and the relationships on
/// its path.
pub struct ColumnView {
    pub name: Seq<char>,
    pub path: Seq<Seq<char>>,
}

/// The abstract value of a binary operator.
pub enum BinaryOperatorView {
    Equal,
    Other(Seq<char>),
}

/// The abstract value of an expression.
pub enum ExpressionView {
    And(Seq<ExpressionView>),
    Or(Seq<ExpressionView>),
    Not(Box<ExpressionView>),
    Unary { column: ColumnView, operator: UnaryComparisonOperator },
    Binary { column: ColumnView, operator: BinaryOperatorView, value: JsonView },
}

impl View for ComparisonTarget {
    type V = ColumnView;

    open spec fn view(&self) -> ColumnView {
        match self {
            ComparisonTarget::Column { name, path } => ColumnView {
                name: name@,
                path: path@.map_values(|p: PathElement| p.relationship@),
            },
        }
    }
}

impl View for BinaryComparisonOperator {
    type V = BinaryOperatorView;

    open spec fn view(&self) -> BinaryOperatorView {
        match self {
            BinaryComparisonOperator::Equal => BinaryOperatorView::Equal,
            BinaryComparisonOperator::Other { name } => BinaryOperatorView::Other(name@),
        }
    }
}

impl View for ComparisonValue {
    type V = JsonView;

    open spec fn view(&self) -> JsonView {
        match self {
            ComparisonValue::Scalar { value } => value@,
        }
    }
}

pub open spec fn expression_view(e: Expression) -> ExpressionView
    decreases e,
{
    match e {
        Expression::And { expressions } => ExpressionView::And(
            Seq::new(
                expressions.len() as nat,
                |i: int|
                    if 0 <= i < expressions.len() {
                        expression_view(expressions[i])
                    } else {
                        ExpressionView::And(Seq::empty())
                    },
            ),
        ),
        Expression::Or { expressions } => ExpressionView::Or(
            Seq::new(
                expressions.len() as nat,
                |i: int|
                    if 0 <= i < expressions.len() {
                        expression_view(expressions[i])
                    } else {
                        ExpressionView::And(Seq::empty())
                    },
            ),
        ),
        Expression::Not { expression } => ExpressionView::Not(Box::new(expression_view(*expression))),
        Expression::UnaryComparisonOperator { column, operator } => ExpressionView::Unary {
            column: column@,
            operator,
        },
        Expression::BinaryComparisonOperator { column, operator, value } => ExpressionView::Binary {
            column: column@,
            operator: operator@,
            value: value@,
        },
    }
}

impl View for Expression {
    type V = ExpressionView;

    open spec fn view(&self) -> ExpressionView {
        expression_view(*self)
    }
}

/// The abstract values of a list of expressions.
pub open spec fn expressions_view(v: Seq<Expression>) -> Seq<ExpressionView> {
    v.map_values(|e: Expression| e@)
}

/// The view of a conjunction is the conjunction of the views.
pub proof fn lemma_and_view(v: Vec<Expression>)
    ensures
        (Expression::And { expressions: v })@ == ExpressionView::And(expressions_view(v@)),
        (Expression::Or { expressions: v })@ == ExpressionView::Or(expressions_view(v@)),
{
    let a = (Expression::And { expressions: v })@;
    let o = (Expression::Or { expressions: v })@;
    match (a, o) {
        (ExpressionView::And(s), ExpressionView::Or(t)) => {
            assert(s =~= expressions_view(v@));
            assert(t =~= expressions_view(v@));
        },
        _ => {},
    }
}

/// A column with an empty path.
pub fn column(name: String) -> (r: ComparisonTarget)
    ensures
        r@ == (ColumnView { name: name@, path: Seq::empty() }),
{
    let r = ComparisonTarget::Column { name, path: Vec::new() };
    proof {
        let ComparisonTarget::Column { name: n, path } = r;
        assert(path@.map_values(|p: PathElement| p.relationship@) =~= Seq::<Seq<char>>::empty());
    }
    r
}

impl BinaryComparisonOperator {
    /// A copy of this operator.
    pub fn duplicate(&self) -> (r: Self)
        ensures
            r@ == self@,
    {
        match self {
            BinaryComparisonOperator::Equal => BinaryComparisonOperator::Equal,
            BinaryComparisonOperator::Other { name } => BinaryComparisonOperator::Other {
                name: name.clone(),
            },
        }
    }
}

impl ComparisonTarget {
    /// A copy of this target.
    pub fn duplicate(&self) -> (r: Self)
        ensures
            r@ == self@,
    {
        match self {
            ComparisonTarget::Column { name, path } => {
                let mut out: Vec<PathElement> = Vec::new();
                let mut i: usize = 0;
                while i < path.len()
                    invariant
                        i <= path.len(),
                        out.len() == i,
                        forall|j: int| 0 <= j < i ==> (#[trigger] out[j]).relationship@ == path[j].relationship@,
                    decreases path.len() - i,
                {
                    out.push(PathElement { relationship: path[i].relationship.clone() });
                    i = i + 1;
                }
                let r = ComparisonTarget::Column { name: name.clone(), path: out };
                proof {
                    assert(out@.map_values(|p: PathElement| p.relationship@) =~= path@.map_values(
                        |p: PathElement| p.relationship@,
                    ));
                }
                r
            },
        }
    }
}

impl Expression {
    /// A copy of this expression.
    pub fn duplicate(&self) -> (r: Self)
        ensures
            r@ == self@,
        decreases self, 1nat,
    {
        match self {
            Expression::And { expressions } => {
                let out = duplicate_all(expressions);
                proof {
                    lemma_and_view(out);
                    lemma_and_view(*expressions);
                    assert(expressions_view(out@) =~= expressions_view(expressions@));
                }
                Expression::And { expressions: out }
            },
            Expression::Or { expressions } => {
                let out = duplicate_all(expressions);
                proof {
                    lemma_and_view(out);
                    lemma_and_view(*expressions);
                    assert(expressions_view(out@) =~= expressions_view(expressions@));
                }
                Expression::Or { expressions: out }
            },
            Expression::Not { expression } => {
                let inner: &Expression = expression;
                Expression::Not { expression: Box::new(inner.duplicate()) }
            },
            Expression::UnaryComparisonOperator { column, operator } => {
                Expression::UnaryComparisonOperator { column: column.duplicate(), operator: *operator }
            },
            Expression::BinaryComparisonOperator { column, operator, value } => {
                let v = match value {
                    ComparisonValue::Scalar { value } => ComparisonValue::Scalar { value: value.clone() },
                };
                Expression::BinaryComparisonOperator {
                    column: column.duplicate(),
                    operator: operator.duplicate(),
                    value: v,
                }
            },
        }
    }
}

/// Copies a list of expressions.
pub fn duplicate_all(a: &Vec<Expression>) -> (out: Vec<Expression>)
    ensures
        out.len() == a.len(),
        forall|j: int| 0 <= j < a.len() ==> #[trigger] out[j]@ == a[j]@,
    decreases a, 0nat,
{
    let mut out: Vec<Expression> = Vec::new();
    let mut i: usize = 0;
    while i < a.len()
        invariant
            i <= a.len(),
            out.len() == i,
            forall|j: int| 0 <= j < i ==> #[trigger] out[j]@ == a[j]@,
        decreases a.len() - i,
    {
        assert(decreases_to!(a => a[i as int]));
        out.push(a[i].duplicate());
        i = i + 1;
    }
    out
}

} // verus!
