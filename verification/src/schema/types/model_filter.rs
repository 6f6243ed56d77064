//! The boolean expression of a model's `where` argument.

use vstd::prelude::*;
use vstd::string::*;

use crate::json::JsonView;
use crate::open_dds::ndc_client::models::{
    column, expressions_view, lemma_and_view, BinaryComparisonOperator, BinaryOperatorView,
    ColumnView, ComparisonValue, Expression, ExpressionView, UnaryComparisonOperator,
};
use crate::schema::normalized::{
    unexpected_value, value_json, InputAnnotation, InputField, ModelFilterArgument, InputValue,
};
use crate::schema::operations::error::unexpected_annotation;
use crate::schema::operations::error::{Error, InternalEngineError, InternalError};
use crate::keyed::{
    entries_distinct, entries_view, find_key, first_key, has_key, lemma_first_key_unique, set_entry,
    upsert,
};
use crate::metadata::resolved::model::{ComparisonExpressionInfo, FilterView, Model, ModelFilterExpression};
use crate::metadata::resolved::types::{ObjectTypeRepresentation, TypeRepresentation};
use crate::open_dds::names::{FieldName, Ident, Role};
use crate::schema::graphql::{
    InputFieldView, InputObject, Namespaced, NamespacedView, TypeInfo, Visibility, VisibilityView,
};
use crate::schema::normalized::{FilterArgumentView, InputAnnotationView};
use crate::schema::operations::permissions::{allowed_roles, get_allowed_roles_for_field, role_names};
use crate::schema::types::input_type::{get_input_type, input_type_ids};
use crate::schema::types::output_type::{get_object_type_representation, type_error, TypeFailure, Types};
use crate::schema::types::{annotations_view, NamespaceAnnotation, RoleAnnotations};
use crate::metadata::resolved::subgraph::{Qualified, QualifiedTypeReference, QualifiedTypeReferenceView};
use crate::open_dds::names::ModelName;
use crate::open_dds::types::CustomTypeName;
use crate::metadata::resolved::types::{is_graphql_name, mk_name};
use crate::schema::error::Error as SchemaError;
use crate::schema::graphql::{
    BaseTypeView, Builder, RegisteredTypeName, SchemaInputField, TypeContainer, TypeContainerView,
    TypeId, TypeIdView,
};
use crate::text::str_eq;

verus! {

/// Why a `where` argument could not be turned into expressions.
pub enum FilterFailure {
    UnexpectedValue(Seq<char>),
    UnexpectedAnnotation(InputAnnotationView),
}

/// Whether an error is the one reported for a failure.
pub open spec fn filter_error(e: Error, f: FilterFailure) -> bool {
    match f {
        FilterFailure::UnexpectedValue(x) => unexpected_value(e, x),
        FilterFailure::UnexpectedAnnotation(a) => unexpected_annotation(e, a),
    }
}

/// Whether a result is the one the spec gives.
pub open spec fn filter_result(
    r: Result<Vec<Expression>, Error>,
    s: Result<Seq<ExpressionView>, FilterFailure>,
) -> bool {
    match s {
        Ok(xs) => r matches Ok(es) && expressions_view(es@) == xs,
        Err(f) => r matches Err(e) && filter_error(e, f),
    }
}

/// A column with an empty path.
pub open spec fn col(c: Seq<char>) -> ColumnView {
    ColumnView { name: c, path: Seq::empty() }
}

/// The expression of one comparison on a column: `_eq` compares for
/// equality, `_is_null` tests for null (or, given `false`, for not null), and
/// any other operator is passed on by its name.
pub open spec fn operator_expression(c: Seq<char>, op: InputField) -> Result<ExpressionView, FilterFailure> {
    if op.name@ == "_eq"@ {
        Ok(
            ExpressionView::Binary {
                column: col(c),
                operator: BinaryOperatorView::Equal,
                value: value_json(op.value),
            },
        )
    } else if op.name@ == "_is_null"@ {
        match op.value {
            InputValue::Boolean(b) => {
                let is_null = ExpressionView::Unary { column: col(c), operator: UnaryComparisonOperator::IsNull };
                if b {
                    Ok(is_null)
                } else {
                    Ok(ExpressionView::Not(Box::new(is_null)))
                }
            },
            _ => Err(FilterFailure::UnexpectedValue("boolean"@)),
        }
    } else {
        Ok(
            ExpressionView::Binary {
                column: col(c),
                operator: BinaryOperatorView::Other(op.name@),
                value: value_json(op.value),
            },
        )
    }
}

/// The expressions of the first `n` comparisons on a column.
pub open spec fn operators_expressions(c: Seq<char>, ops: Seq<InputField>, n: int) -> Result<
    Seq<ExpressionView>,
    FilterFailure,
>
    decreases n,
{
    if n <= 0 || n > ops.len() {
        Ok(Seq::empty())
    } else {
        match operators_expressions(c, ops, n - 1) {
            Err(f) => Err(f),
            Ok(es) => match operator_expression(c, ops[n - 1]) {
                Ok(e) => Ok(es.push(e)),
                Err(f) => Err(f),
            },
        }
    }
}

/// The expressions of the first `n` fields of a `where` object, in order.
pub open spec fn fields_filter(fs: Vec<InputField>, n: int) -> Result<Seq<ExpressionView>, FilterFailure>
    decreases fs, n,
{
    if n <= 0 || n > fs.len() {
        Ok(Seq::empty())
    } else {
        match fields_filter(fs, n - 1) {
            Err(f) => Err(f),
            Ok(es) => match field_filter(fs[n - 1]) {
                Ok(more) => Ok(es + more),
                Err(f) => Err(f),
            },
        }
    }
}

/// The expressions of one field of a `where` object: `_and` and `_or` give
/// the conjunction and the disjunction of the conjunctions of their objects,
/// `_not` the negation of the conjunction of its object, and a column field
/// one expression for each of its comparisons.
pub open spec fn field_filter(f: InputField) -> Result<Seq<ExpressionView>, FilterFailure>
    decreases f, 0int,
{
    match f.info {
        InputAnnotation::ModelFilterArgument(ModelFilterArgument::AndOp) => match f.value {
            InputValue::List(vs) => match conjunctions(vs, vs.len() as int) {
                Ok(cs) => Ok(seq![ExpressionView::And(cs)]),
                Err(x) => Err(x),
            },
            _ => Err(FilterFailure::UnexpectedValue("list"@)),
        },
        InputAnnotation::ModelFilterArgument(ModelFilterArgument::OrOp) => match f.value {
            InputValue::List(vs) => match conjunctions(vs, vs.len() as int) {
                Ok(cs) => Ok(seq![ExpressionView::Or(cs)]),
                Err(x) => Err(x),
            },
            _ => Err(FilterFailure::UnexpectedValue("list"@)),
        },
        InputAnnotation::ModelFilterArgument(ModelFilterArgument::NotOp) => match f.value {
            InputValue::Object(ofs) => match fields_filter(ofs, ofs.len() as int) {
                Ok(es) => Ok(seq![ExpressionView::Not(Box::new(ExpressionView::And(es)))]),
                Err(x) => Err(x),
            },
            _ => Err(FilterFailure::UnexpectedValue("object"@)),
        },
        InputAnnotation::ModelFilterArgument(ModelFilterArgument::Field { ndc_column }) => match f.value {
            InputValue::Object(ops) => operators_expressions(ndc_column@, ops@, ops.len() as int),
            _ => Err(FilterFailure::UnexpectedValue("object"@)),
        },
        _ => Err(FilterFailure::UnexpectedAnnotation(f.info@)),
    }
}

/// Whether a comparison is `_is_null` given the boolean.
pub open spec fn is_null_comparison(op: InputField, b: bool) -> bool {
    op.name@ == "_is_null"@ && op.value == InputValue::Boolean(b)
}

/// The test that a column, reached by no relationship, is null.
pub open spec fn null_test(c: Seq<char>) -> ExpressionView {
    ExpressionView::Unary { column: ColumnView { name: c, path: Seq::empty() }, operator: UnaryComparisonOperator::IsNull }
}

/// What the comparisons on a column say, taken one by one: the first `n` of
/// them give one expression each, at their own position; `_is_null: true`
/// is the test that the column is null and `_is_null: false` its negation;
/// `_eq` compares the column with the value for equality and any other
/// operator compares it under that operator's name; and they fail exactly
/// where some `_is_null` among them is given no boolean.
proof fn lemma_column_comparisons(c: Seq<char>, ops: Seq<InputField>, n: int)
    requires
        0 <= n <= ops.len(),
    ensures
        (operators_expressions(c, ops, n) is Ok) <==> (forall|i: int|
            0 <= i < n && (#[trigger] ops[i]).name@ == "_is_null"@ ==> ops[i].value is Boolean),
        operators_expressions(c, ops, n) matches Ok(es) ==> es.len() == n && forall|i: int|
            0 <= i < n ==> {
                &&& is_null_comparison(ops[i], true) ==> (#[trigger] es[i]) == null_test(c)
                &&& is_null_comparison(ops[i], false) ==> es[i] == ExpressionView::Not(Box::new(null_test(c)))
                &&& ops[i].name@ == "_eq"@ ==> es[i] == ExpressionView::Binary {
                    column: ColumnView { name: c, path: Seq::empty() },
                    operator: BinaryOperatorView::Equal,
                    value: value_json(ops[i].value),
                }
                &&& ops[i].name@ != "_eq"@ && ops[i].name@ != "_is_null"@ ==> es[i] == ExpressionView::Binary {
                    column: ColumnView { name: c, path: Seq::empty() },
                    operator: BinaryOperatorView::Other(ops[i].name@),
                    value: value_json(ops[i].value),
                }
            },
    decreases n,
{
    reveal_strlit("_is_null");
    reveal_strlit("_eq");
    assert("_eq"@.len() == 3 && "_is_null"@.len() == 8);
    assert("_eq"@ != "_is_null"@);
    if n > 0 {
        lemma_column_comparisons(c, ops, n - 1);
        let op = ops[n - 1];
        let prev = operators_expressions(c, ops, n - 1);
        let cur = operator_expression(c, op);
        assert(cur is Ok <==> !(op.name@ == "_is_null"@ && !(op.value is Boolean)));
        if prev is Ok && cur is Ok {
            let es0 = prev->Ok_0;
            let es = es0.push(cur->Ok_0);
            assert(operators_expressions(c, ops, n) == Ok::<Seq<ExpressionView>, FilterFailure>(es));
            assert forall|i: int| 0 <= i < n && (#[trigger] ops[i]).name@ == "_is_null"@ implies ops[i].value is Boolean by {
                if i < n - 1 {
                } else {
                    assert(i == n - 1);
                }
            }
            assert forall|i: int| 0 <= i < n implies {
                &&& is_null_comparison(ops[i], true) ==> (#[trigger] es[i]) == null_test(c)
                &&& is_null_comparison(ops[i], false) ==> es[i] == ExpressionView::Not(Box::new(null_test(c)))
                &&& ops[i].name@ == "_eq"@ ==> es[i] == ExpressionView::Binary {
                    column: ColumnView { name: c, path: Seq::empty() },
                    operator: BinaryOperatorView::Equal,
                    value: value_json(ops[i].value),
                }
                &&& ops[i].name@ != "_eq"@ && ops[i].name@ != "_is_null"@ ==> es[i] == ExpressionView::Binary {
                    column: ColumnView { name: c, path: Seq::empty() },
                    operator: BinaryOperatorView::Other(ops[i].name@),
                    value: value_json(ops[i].value),
                }
            } by {
                if i < n - 1 {
                    assert(es[i] == es0[i]);
                } else {
                    assert(es[i] == cur->Ok_0);
                }
            }
        } else {
            assert(!(operators_expressions(c, ops, n) is Ok));
            if prev is Ok {
                assert(op.name@ == "_is_null"@ && !(op.value is Boolean));
                assert(ops[n - 1].name@ == "_is_null"@);
            } else {
                let i = choose|i: int| 0 <= i < n - 1 && (#[trigger] ops[i]).name@ == "_is_null"@ && !(ops[i].value is Boolean);
                assert(0 <= i < n && ops[i].name@ == "_is_null"@ && !(ops[i].value is Boolean));
            }
        }
    }
}

/// Law: in a `where` argument, a column field gives one expression for each
/// of its comparisons, in order; `_is_null: true` is the plain test that the
/// column is null and only `_is_null: false` gives its negation; `_eq`
/// compares the column for equality with the value, and any other operator
/// compares it under that operator's name. The field can be read
/// exactly when every `_is_null` among its comparisons is given a boolean.
pub proof fn law_column_field_comparisons(f: InputField, c: Seq<char>, ops: Vec<InputField>)
    requires
        f.info matches InputAnnotation::ModelFilterArgument(ModelFilterArgument::Field { ndc_column }) && ndc_column@ == c,
        f.value == InputValue::Object(ops),
    ensures
        (field_filter(f) is Ok) <==> (forall|i: int|
            0 <= i < ops.len() && (#[trigger] ops@[i]).name@ == "_is_null"@ ==> ops@[i].value is Boolean),
        field_filter(f) matches Ok(es) ==> es.len() == ops.len() && forall|i: int|
            0 <= i < ops.len() ==> {
                &&& is_null_comparison(ops@[i], true) ==> (#[trigger] es[i]) == null_test(c)
                &&& is_null_comparison(ops@[i], false) ==> es[i] == ExpressionView::Not(Box::new(null_test(c)))
                &&& ops@[i].name@ == "_eq"@ ==> es[i] == ExpressionView::Binary {
                    column: ColumnView { name: c, path: Seq::empty() },
                    operator: BinaryOperatorView::Equal,
                    value: value_json(ops@[i].value),
                }
                &&& ops@[i].name@ != "_eq"@ && ops@[i].name@ != "_is_null"@ ==> es[i] == ExpressionView::Binary {
                    column: ColumnView { name: c, path: Seq::empty() },
                    operator: BinaryOperatorView::Other(ops@[i].name@),
                    value: value_json(ops@[i].value),
                }
            },
{
    lemma_column_comparisons(c, ops@, ops.len() as int);
}

/// Law: a `where` object made of one column field that tests `_is_null: b`
/// gives one expression: the test that the column is null where `b` is
/// true, its negation where `b` is false.
pub proof fn law_where_is_null(fs: Vec<InputField>, c: Seq<char>, ops: Vec<InputField>, b: bool)
    requires
        fs.len() == 1,
        fs@[0].info matches InputAnnotation::ModelFilterArgument(ModelFilterArgument::Field { ndc_column }) && ndc_column@ == c,
        fs@[0].value == InputValue::Object(ops),
        ops.len() == 1,
        is_null_comparison(ops@[0], b),
    ensures
        fields_filter(fs, 1) == Ok::<Seq<ExpressionView>, FilterFailure>(
            seq![if b { null_test(c) } else { ExpressionView::Not(Box::new(null_test(c))) }],
        ),
{
    law_column_field_comparisons(fs@[0], c, ops);
    assert(fields_filter(fs, 0) == Ok::<Seq<ExpressionView>, FilterFailure>(Seq::empty()));
    let es = field_filter(fs@[0])->Ok_0;
    assert(es =~= seq![if b { null_test(c) } else { ExpressionView::Not(Box::new(null_test(c))) }]);
    assert(Seq::<ExpressionView>::empty() + es =~= es);
}

/// Whether a value is a `where` object that can be read.
pub open spec fn readable_object(v: InputValue) -> bool {
    v matches InputValue::Object(ofs) && fields_filter(ofs, ofs.len() as int) is Ok
}

/// The conjunction of the expressions of a readable `where` object.
pub open spec fn object_conjunction(v: InputValue) -> ExpressionView {
    ExpressionView::And(fields_filter(v->Object_0, v->Object_0.len() as int)->Ok_0)
}

proof fn lemma_conjunctions(vs: Vec<InputValue>, n: int)
    requires
        0 <= n <= vs.len(),
    ensures
        (conjunctions(vs, n) is Ok) <==> (forall|k: int| 0 <= k < n ==> readable_object(#[trigger] vs@[k])),
        conjunctions(vs, n) matches Ok(cs) ==> cs.len() == n && forall|k: int|
            0 <= k < n ==> (#[trigger] cs[k]) == object_conjunction(vs@[k]),
    decreases n,
{
    if n > 0 {
        lemma_conjunctions(vs, n - 1);
        let prev = conjunctions(vs, n - 1);
        if prev is Ok && readable_object(vs@[n - 1]) {
            let cs0 = prev->Ok_0;
            let cs = conjunctions(vs, n)->Ok_0;
            assert(cs == cs0.push(object_conjunction(vs@[n - 1])));
            assert forall|k: int| 0 <= k < n implies readable_object(#[trigger] vs@[k]) by {
                if k == n - 1 {
                }
            }
            assert forall|k: int| 0 <= k < n implies (#[trigger] cs[k]) == object_conjunction(vs@[k]) by {
                if k < n - 1 {
                    assert(cs[k] == cs0[k]);
                }
            }
        } else if prev is Ok {
            assert(!readable_object(vs@[n - 1]));
        } else {
            let k = choose|k: int| 0 <= k < n - 1 && !readable_object(#[trigger] vs@[k]);
            assert(0 <= k < n && !readable_object(vs@[k]));
        }
    }
}

/// Law: in a `where` argument, `_and` gives the conjunction and `_or` the
/// disjunction of one conjunction for each of its objects, in order, each
/// the conjunction of that object's expressions; they can be read exactly
/// when each of their objects can.
pub proof fn law_where_and_or(f: InputField, vs: Vec<InputValue>)
    requires
        f.value == InputValue::List(vs),
    ensures
        f.info == InputAnnotation::ModelFilterArgument(ModelFilterArgument::AndOp) ==> {
            &&& (field_filter(f) is Ok) <==> (forall|k: int| 0 <= k < vs.len() ==> readable_object(#[trigger] vs@[k]))
            &&& field_filter(f) matches Ok(es) ==> es.len() == 1 && (es[0] matches ExpressionView::And(cs) && cs.len()
                == vs.len() && forall|k: int| 0 <= k < vs.len() ==> (#[trigger] cs[k]) == object_conjunction(vs@[k]))
        },
        f.info == InputAnnotation::ModelFilterArgument(ModelFilterArgument::OrOp) ==> {
            &&& (field_filter(f) is Ok) <==> (forall|k: int| 0 <= k < vs.len() ==> readable_object(#[trigger] vs@[k]))
            &&& field_filter(f) matches Ok(es) ==> es.len() == 1 && (es[0] matches ExpressionView::Or(cs) && cs.len()
                == vs.len() && forall|k: int| 0 <= k < vs.len() ==> (#[trigger] cs[k]) == object_conjunction(vs@[k]))
        },
{
    lemma_conjunctions(vs, vs.len() as int);
}

/// Law: in a `where` argument, `_not` gives the negation of the conjunction
/// of its object's expressions, and can be read exactly when its object can.
pub proof fn law_where_not(f: InputField, ofs: Vec<InputField>)
    requires
        f.info == InputAnnotation::ModelFilterArgument(ModelFilterArgument::NotOp),
        f.value == InputValue::Object(ofs),
    ensures
        match fields_filter(ofs, ofs.len() as int) {
            Ok(es) => field_filter(f) == Ok::<Seq<ExpressionView>, FilterFailure>(
                seq![ExpressionView::Not(Box::new(ExpressionView::And(es)))],
            ),
            Err(_) => field_filter(f) is Err,
        },
{
}

/// The conjunctions of the first `n` objects of a list.
pub open spec fn conjunctions(vs: Vec<InputValue>, n: int) -> Result<Seq<ExpressionView>, FilterFailure>
    decreases vs, n,
{
    if n <= 0 || n > vs.len() {
        Ok(Seq::empty())
    } else {
        match conjunctions(vs, n - 1) {
            Err(f) => Err(f),
            Ok(cs) => match vs[n - 1] {
                InputValue::Object(ofs) => match fields_filter(ofs, ofs.len() as int) {
                    Ok(es) => Ok(cs.push(ExpressionView::And(es))),
                    Err(x) => Err(x),
                },
                _ => Err(FilterFailure::UnexpectedValue("object"@)),
            },
        }
    }
}

proof fn lemma_fields_failure_persists(fs: Vec<InputField>, k: int, n: int)
    requires
        1 <= k <= n <= fs.len(),
        fields_filter(fs, k) is Err,
    ensures
        fields_filter(fs, n) == fields_filter(fs, k),
    decreases n - k,
{
    if k < n {
        lemma_fields_failure_persists(fs, k, n - 1);
    }
}

proof fn lemma_conjunctions_failure_persists(vs: Vec<InputValue>, k: int, n: int)
    requires
        1 <= k <= n <= vs.len(),
        conjunctions(vs, k) is Err,
    ensures
        conjunctions(vs, n) == conjunctions(vs, k),
    decreases n - k,
{
    if k < n {
        lemma_conjunctions_failure_persists(vs, k, n - 1);
    }
}

proof fn lemma_operators_failure_persists(c: Seq<char>, ops: Seq<InputField>, k: int, n: int)
    requires
        1 <= k <= n <= ops.len(),
        operators_expressions(c, ops, k) is Err,
    ensures
        operators_expressions(c, ops, n) == operators_expressions(c, ops, k),
    decreases n - k,
{
    if k < n {
        lemma_operators_failure_persists(c, ops, k, n - 1);
    }
}

/// A comparison of a column with a value.
pub fn build_binary_comparison_expression(
    operator: BinaryComparisonOperator,
    column_name: String,
    value: &InputValue,
) -> (r: Expression)
    ensures
        r@ == (ExpressionView::Binary {
            column: col(column_name@),
            operator: operator@,
            value: value_json(*value),
        }),
{
    Expression::BinaryComparisonOperator {
        column: column(column_name),
        operator,
        value: ComparisonValue::Scalar { value: value.as_json() },
    }
}

/// The `_is_null` comparison of a column: is null where the value is `true`,
/// is not null where it is `false`.
pub fn build_is_null_expression(column_name: String, value: &InputValue) -> (r: Result<Expression, Error>)
    ensures
        ({
            let is_null = ExpressionView::Unary {
                column: col(column_name@),
                operator: UnaryComparisonOperator::IsNull,
            };
            match *value {
                InputValue::Boolean(true) => r matches Ok(e) && e@ == is_null,
                InputValue::Boolean(false) => r matches Ok(e) && e@ == ExpressionView::Not(Box::new(is_null)),
                _ => r matches Err(e) && unexpected_value(e, "boolean"@),
            }
        }),
{
    let unary = Expression::UnaryComparisonOperator {
        column: column(column_name),
        operator: UnaryComparisonOperator::IsNull,
    };
    let is_null = value.as_boolean()?;
    if is_null {
        Ok(unary)
    } else {
        let r = Expression::Not { expression: Box::new(unary) };
        assert(r@ == ExpressionView::Not(Box::new(unary@)));
        Ok(r)
    }
}

/// The expressions of the comparisons on a column.
fn resolve_operators(column_name: &String, ops: &Vec<InputField>) -> (r: Result<Vec<Expression>, Error>)
    ensures
        filter_result(r, operators_expressions(column_name@, ops@, ops.len() as int)),
{
    let mut out: Vec<Expression> = Vec::new();
    assert(expressions_view(out@) =~= Seq::<ExpressionView>::empty());
    let mut i: usize = 0;
    while i < ops.len()
        invariant
            i <= ops.len(),
            operators_expressions(column_name@, ops@, i as int) == Ok::<
                Seq<ExpressionView>,
                FilterFailure,
            >(expressions_view(out@)),
        decreases ops.len() - i,
    {
        let op = &ops[i];
        let e = if str_eq(op.name.as_str(), "_eq") {
            build_binary_comparison_expression(BinaryComparisonOperator::Equal, column_name.clone(), &op.value)
        } else if str_eq(op.name.as_str(), "_is_null") {
            match build_is_null_expression(column_name.clone(), &op.value) {
                Ok(e) => e,
                Err(err) => {
                    proof {
                        lemma_operators_failure_persists(column_name@, ops@, i + 1, ops.len() as int);
                    }
                    return Err(err);
                },
            }
        } else {
            let operator = BinaryComparisonOperator::Other { name: op.name.clone() };
            build_binary_comparison_expression(operator, column_name.clone(), &op.value)
        };
        let ghost before = out@;
        out.push(e);
        assert(expressions_view(out@) =~= expressions_view(before).push(e@));
        i = i + 1;
    }
    Ok(out)
}

/// The conjunctions of the objects of a list.
fn resolve_conjunctions(values: &Vec<InputValue>) -> (r: Result<Vec<Expression>, Error>)
    ensures
        filter_result(r, conjunctions(*values, values.len() as int)),
    decreases values,
{
    let mut out: Vec<Expression> = Vec::new();
    assert(expressions_view(out@) =~= Seq::<ExpressionView>::empty());
    let mut i: usize = 0;
    while i < values.len()
        invariant
            i <= values.len(),
            conjunctions(*values, i as int) == Ok::<Seq<ExpressionView>, FilterFailure>(
                expressions_view(out@),
            ),
        decreases values.len() - i,
    {
        assert(decreases_to!(values => values[i as int]));
        let object = match values[i].as_object() {
            Ok(o) => o,
            Err(err) => {
                proof {
                    lemma_conjunctions_failure_persists(*values, i + 1, values.len() as int);
                }
                return Err(err);
            },
        };
        let inner = match resolve_filter_expression(object) {
            Ok(inner) => inner,
            Err(err) => {
                proof {
                    lemma_conjunctions_failure_persists(*values, i + 1, values.len() as int);
                }
                return Err(err);
            },
        };
        proof {
            lemma_and_view(inner);
        }
        let e = Expression::And { expressions: inner };
        let ghost before = out@;
        out.push(e);
        assert(expressions_view(out@) =~= expressions_view(before).push(e@));
        i = i + 1;
    }
    Ok(out)
}

/// The expressions of one field of a `where` object.
fn resolve_filter_field(field: &InputField) -> (r: Result<Vec<Expression>, Error>)
    ensures
        filter_result(r, field_filter(*field)),
    decreases field,
{
    match &field.info {
        InputAnnotation::ModelFilterArgument(ModelFilterArgument::AndOp) => {
            let values = field.value.as_list()?;
            let cs = resolve_conjunctions(values)?;
            proof {
                lemma_and_view(cs);
            }
            let e = Expression::And { expressions: cs };
            let out = vec![e];
            assert(expressions_view(out@) =~= seq![e@]);
            Ok(out)
        },
        InputAnnotation::ModelFilterArgument(ModelFilterArgument::OrOp) => {
            let values = field.value.as_list()?;
            let cs = resolve_conjunctions(values)?;
            proof {
                lemma_and_view(cs);
            }
            let e = Expression::Or { expressions: cs };
            let out = vec![e];
            assert(expressions_view(out@) =~= seq![e@]);
            Ok(out)
        },
        InputAnnotation::ModelFilterArgument(ModelFilterArgument::NotOp) => {
            let object = field.value.as_object()?;
            let inner = resolve_filter_expression(object)?;
            proof {
                lemma_and_view(inner);
            }
            let e = Expression::Not { expression: Box::new(Expression::And { expressions: inner }) };
            let out = vec![e];
            assert(expressions_view(out@) =~= seq![e@]);
            Ok(out)
        },
        InputAnnotation::ModelFilterArgument(ModelFilterArgument::Field { ndc_column }) => {
            let ops = field.value.as_object()?;
            resolve_operators(ndc_column, ops)
        },
        _ => Err(Error::engine(InternalEngineError::UnexpectedAnnotation { annotation: crate::schema::normalized::Annotation::Input(field.info.duplicate()) })),
    }
}

/// The expressions of a model's `where` argument, field by field, in order.
/// The first field that cannot be turned into expressions gives the error.
pub fn resolve_filter_expression(fields: &Vec<InputField>) -> (r: Result<Vec<Expression>, Error>)
    ensures
        filter_result(r, fields_filter(*fields, fields.len() as int)),
    decreases fields,
{
    let mut out: Vec<Expression> = Vec::new();
    assert(expressions_view(out@) =~= Seq::<ExpressionView>::empty());
    let mut i: usize = 0;
    while i < fields.len()
        invariant
            i <= fields.len(),
            fields_filter(*fields, i as int) == Ok::<Seq<ExpressionView>, FilterFailure>(
                expressions_view(out@),
            ),
        decreases fields.len() - i,
    {
        assert(decreases_to!(fields => fields[i as int]));
        let mut more = match resolve_filter_field(&fields[i]) {
            Ok(more) => more,
            Err(err) => {
                proof {
                    lemma_fields_failure_persists(*fields, i + 1, fields.len() as int);
                }
                return Err(err);
            },
        };
        let ghost before = out@;
        let ghost added = more@;
        out.append(&mut more);
        assert(expressions_view(out@) =~= expressions_view(before) + expressions_view(added));
        i = i + 1;
    }
    Ok(out)
}

/// The `where` argument of a model field: of the model's boolean expression
/// type, nullable.
pub fn get_where_expression_input_field(
    builder: &mut Builder,
    model_name: Qualified<ModelName>,
    boolean_expression_info: &ModelFilterExpression,
) -> (r: SchemaInputField)
    ensures
        final(builder).registered() == old(builder).registered().push(
            TypeIdView::ModelBooleanExpression(model_name@, boolean_expression_info.where_type_name@),
        ),
        r.name@ == "where"@,
        r.info == InputAnnotation::ModelFilterExpression,
        r.field_type@ == (TypeContainerView {
            base: BaseTypeView::Named(boolean_expression_info.where_type_name@),
            nullable: true,
        }),
{
    let registered = builder.register_type(
        TypeId::ModelBooleanExpression {
            model_name,
            graphql_type_name: boolean_expression_info.where_type_name.clone(),
        },
    );
    SchemaInputField {
        name: String::from_str("where"),
        info: InputAnnotation::ModelFilterExpression,
        field_type: TypeContainer::named_null(registered),
    }
}

/// Whether each operator name is a GraphQL name.
pub open spec fn operator_names_valid(ops: Seq<(String, QualifiedTypeReference)>) -> bool {
    forall|i: int| 0 <= i < ops.len() ==> is_graphql_name(#[trigger] ops[i].0@)
}

/// The first operator whose name is not a GraphQL name.
pub open spec fn first_invalid_operator(ops: Seq<(String, QualifiedTypeReference)>, i: int) -> bool {
    &&& 0 <= i < ops.len()
    &&& !is_graphql_name(ops[i].0@)
    &&& forall|j: int| 0 <= j < i ==> is_graphql_name(#[trigger] ops[j].0@)
}

/// Registers the comparison expression type of a scalar field and gives its
/// name; an error where an operator name is not a GraphQL name.
pub fn get_scalar_comparison_input_type(
    builder: &mut Builder,
    comparison_expression: &ComparisonExpressionInfo,
) -> (r: Result<RegisteredTypeName, SchemaError>)
    ensures
        ({
            let ops = comparison_expression.operators@;
            if operator_names_valid(ops) {
                r matches Ok(n) && n@ == comparison_expression.graphql_type_name@ && final(builder).registered()
                    == old(builder).registered().push(
                    TypeIdView::ScalarTypeComparisonExpression(
                        comparison_expression.scalar_type_name@,
                        comparison_expression.graphql_type_name@,
                        ops.map_values(|o: (String, QualifiedTypeReference)| (o.0@, o.1@)),
                    ),
                )
            } else {
                r matches Err(SchemaError::InvalidGraphQlName { name }) && (exists|i: int|
                    first_invalid_operator(ops, i) && name@ == ops[i].0@) && final(builder).registered()
                    == old(builder).registered()
            }
        }),
{
    let ops = &comparison_expression.operators;
    let mut operators: Vec<(String, QualifiedTypeReference)> = Vec::new();
    let mut i: usize = 0;
    while i < ops.len()
        invariant
            i <= ops.len(),
            ops@ == comparison_expression.operators@,
            builder.registered() == old(builder).registered(),
            operators.len() == i,
            forall|j: int| 0 <= j < i ==> is_graphql_name(#[trigger] ops@[j].0@),
            forall|j: int|
                0 <= j < i ==> (#[trigger] operators@[j]).0@ == ops@[j].0@ && operators@[j].1@
                    == ops@[j].1@,
        decreases ops.len() - i,
    {
        let name = match mk_name(ops[i].0.as_str()) {
            Ok(n) => n,
            Err(_) => {
                assert(first_invalid_operator(ops@, i as int));
                return Err(SchemaError::InvalidGraphQlName { name: ops[i].0.clone() });
            },
        };
        operators.push((name, ops[i].1.duplicate()));
        i = i + 1;
    }
    let ghost operators_view = operators@.map_values(|o: (String, QualifiedTypeReference)| (o.0@, o.1@));
    assert(operators_view =~= ops@.map_values(|o: (String, QualifiedTypeReference)| (o.0@, o.1@)));
    Ok(
        builder.register_type(
            TypeId::ScalarTypeComparisonExpression {
                scalar_type_name: comparison_expression.scalar_type_name.clone(),
                graphql_type_name: comparison_expression.graphql_type_name.clone(),
                operators,
            },
        ),
    )
}

/// The `_not`, `_and` and `_or` fields of a boolean expression type: every
/// role sees them.
pub open spec fn logical_fields(t: Seq<char>) -> Seq<(Seq<char>, NamespacedView<InputFieldView>)> {
    let named = TypeContainerView { base: BaseTypeView::Named(t), nullable: true };
    let list = TypeContainerView {
        base: BaseTypeView::List(Box::new(TypeContainerView { base: BaseTypeView::Named(t), nullable: false })),
        nullable: true,
    };
    seq![
        ("_not"@, NamespacedView {
            data: InputFieldView {
                name: "_not"@,
                info: InputAnnotationView::ModelFilterArgument(FilterArgumentView::Not),
                field_type: named,
            },
            visibility: VisibilityView::AllowAll(None),
        }),
        ("_and"@, NamespacedView {
            data: InputFieldView {
                name: "_and"@,
                info: InputAnnotationView::ModelFilterArgument(FilterArgumentView::And),
                field_type: list,
            },
            visibility: VisibilityView::AllowAll(None),
        }),
        ("_or"@, NamespacedView {
            data: InputFieldView {
                name: "_or"@,
                info: InputAnnotationView::ModelFilterArgument(FilterArgumentView::Or),
                field_type: list,
            },
            visibility: VisibilityView::AllowAll(None),
        }),
    ]
}

/// The field of a boolean expression type for a scalar field: of its
/// comparison expression type, seen by the roles that may read the field.
pub open spec fn column_field(
    ot: ObjectTypeRepresentation,
    name: Seq<char>,
    ce: ComparisonExpressionInfo,
) -> NamespacedView<InputFieldView> {
    NamespacedView {
        data: InputFieldView {
            name,
            info: InputAnnotationView::ModelFilterArgument(FilterArgumentView::Field(ce.ndc_column@)),
            field_type: TypeContainerView { base: BaseTypeView::Named(ce.graphql_type_name@), nullable: true },
        },
        visibility: VisibilityView::Conditional(
            allowed_roles(ot.type_permissions@, name).map_values(
                |r: Seq<char>| (r, None::<FilterView>),
            ),
        ),
    }
}

/// The comparison expression type registered for a scalar field.
pub open spec fn comparison_type_id(ce: ComparisonExpressionInfo) -> TypeIdView {
    TypeIdView::ScalarTypeComparisonExpression(
        ce.scalar_type_name@,
        ce.graphql_type_name@,
        ce.operators@.map_values(|o: (String, QualifiedTypeReference)| (o.0@, o.1@)),
    )
}

/// Why a boolean expression type could not be built.
pub enum FilterSchemaFailure {
    ModelNotFound((Seq<char>, Seq<char>)),
    TypeNotFound((Seq<char>, Seq<char>)),
    NotObject((Seq<char>, Seq<char>)),
    InvalidFieldName(Seq<char>),
    InvalidOperatorName(Seq<(String, QualifiedTypeReference)>),
}

/// Whether an error is the one reported for a failure.
pub open spec fn filter_schema_error(e: SchemaError, f: FilterSchemaFailure) -> bool {
    match f {
        FilterSchemaFailure::ModelNotFound(n) => e matches SchemaError::InternalModelNotFound { model_name }
            && model_name@ == n,
        FilterSchemaFailure::TypeNotFound(n) => e matches SchemaError::InternalTypeNotFound { typename }
            && typename@ == n,
        FilterSchemaFailure::NotObject(n) => e matches SchemaError::ExpectedTypeToBeObject { typename }
            && typename@ == n,
        FilterSchemaFailure::InvalidFieldName(n) => e matches SchemaError::InvalidGraphQlName { name }
            && name@ == n,
        FilterSchemaFailure::InvalidOperatorName(ops) => e is InvalidGraphQlName && exists|i: int|
            first_invalid_operator(ops, i) && e->InvalidGraphQlName_name@ == ops[i].0@,
    }
}

/// The fields for the first `n` scalar fields, set over the given fields, and
/// the types registered for them; or the failure, with the types registered
/// before it.
pub open spec fn column_fields(
    ot: ObjectTypeRepresentation,
    sfs: Seq<(FieldName, ComparisonExpressionInfo)>,
    n: int,
    base: Seq<(Seq<char>, NamespacedView<InputFieldView>)>,
) -> Result<
    (Seq<(Seq<char>, NamespacedView<InputFieldView>)>, Seq<TypeIdView>),
    (FilterSchemaFailure, Seq<TypeIdView>),
>
    decreases n,
{
    if n <= 0 || n > sfs.len() {
        Ok((base, Seq::empty()))
    } else {
        match column_fields(ot, sfs, n - 1, base) {
            Err(f) => Err(f),
            Ok((acc, ids)) => {
                let name = sfs[n - 1].0@;
                let ce = sfs[n - 1].1;
                if !is_graphql_name(name) {
                    Err((FilterSchemaFailure::InvalidFieldName(name), ids))
                } else if !operator_names_valid(ce.operators@) {
                    Err((FilterSchemaFailure::InvalidOperatorName(ce.operators@), ids))
                } else {
                    Ok((upsert(acc, name, column_field(ot, name, ce)), ids.push(comparison_type_id(ce))))
                }
            },
        }
    }
}

/// The fields of the boolean expression type of a model, and the types
/// registered for them; or the failure, with the types registered before it.
pub open spec fn model_filter_schema(
    types: Seq<(Qualified<CustomTypeName>, TypeRepresentation)>,
    models: Seq<(Qualified<ModelName>, Model)>,
    t: Seq<char>,
    model_name: (Seq<char>, Seq<char>),
) -> Result<
    (Seq<(Seq<char>, NamespacedView<InputFieldView>)>, Seq<TypeIdView>),
    (FilterSchemaFailure, Seq<TypeIdView>),
> {
    if !has_key(models, model_name) {
        Err((FilterSchemaFailure::ModelNotFound(model_name), Seq::empty()))
    } else {
        let model = models[first_key(models, model_name)].1;
        let data_type = model.data_type@;
        if !has_key(types, data_type) {
            Err((FilterSchemaFailure::TypeNotFound(data_type), Seq::empty()))
        } else {
            match types[first_key(types, data_type)].1 {
                TypeRepresentation::ScalarType { .. } => Err(
                    (FilterSchemaFailure::NotObject(data_type), Seq::empty()),
                ),
                TypeRepresentation::Object(ot) => match model.graphql_api.filter_expression {
                    None => Ok((logical_fields(t), Seq::empty())),
                    Some(fe) => column_fields(ot, fe.scalar_fields@, fe.scalar_fields.len() as int, logical_fields(t)),
                },
            }
        }
    }
}

proof fn lemma_column_fields_failure_persists(
    ot: ObjectTypeRepresentation,
    sfs: Seq<(FieldName, ComparisonExpressionInfo)>,
    base: Seq<(Seq<char>, NamespacedView<InputFieldView>)>,
    k: int,
    n: int,
)
    requires
        1 <= k <= n <= sfs.len(),
        column_fields(ot, sfs, k, base) is Err,
    ensures
        column_fields(ot, sfs, n, base) == column_fields(ot, sfs, k, base),
    decreases n - k,
{
    if k < n {
        lemma_column_fields_failure_persists(ot, sfs, base, k, n - 1);
    }
}

/// The roles, each without an annotation.
pub(crate) fn without_annotations(roles: Vec<Role>) -> (r: RoleAnnotations)
    ensures
        annotations_view(r@) == role_names(roles@).map_values(|n: Seq<char>| (n, None::<FilterView>)),
{
    let mut out: RoleAnnotations = Vec::new();
    let mut i: usize = 0;
    while i < roles.len()
        invariant
            i <= roles.len(),
            out.len() == i,
            forall|j: int| 0 <= j < i ==> (#[trigger] out@[j]).0@ == roles@[j]@ && out@[j].1 is None,
        decreases roles.len() - i,
    {
        out.push((roles[i].clone(), None));
        i = i + 1;
    }
    assert(annotations_view(out@) =~= role_names(roles@).map_values(|n: Seq<char>| (n, None::<FilterView>)));
    out
}

fn logical_field(
    builder: &Builder,
    name: &str,
    argument: ModelFilterArgument,
    field_type: TypeContainer,
) -> (r: (String, Namespaced<SchemaInputField>))
    ensures
        r.0@ == name@,
        r.1@ == (NamespacedView {
            data: InputFieldView {
                name: name@,
                info: InputAnnotationView::ModelFilterArgument(argument@),
                field_type: field_type@,
            },
            visibility: VisibilityView::AllowAll(None),
        }),
{
    let field = SchemaInputField {
        name: String::from_str(name),
        info: InputAnnotation::ModelFilterArgument(argument),
        field_type,
    };
    (String::from_str(name), builder.allow_all_namespaced(field, None))
}

/// The boolean expression type of a model, named `name_of_type`: its `_not`,
/// `_and` and `_or` fields, and a field for each scalar field it can be
/// filtered by, seen by the roles that may read that field.
pub fn build_model_filter_expression_input_schema(
    types: &Types,
    models: &Vec<(Qualified<ModelName>, Model)>,
    builder: &mut Builder,
    name_of_type: &String,
    model_name: &Qualified<ModelName>,
) -> (r: Result<TypeInfo, SchemaError>)
    ensures
        match model_filter_schema(types@, models@, name_of_type@, model_name@) {
            Ok((fields, ids)) => r matches Ok(TypeInfo::InputObject(o)) && o.name@ == name_of_type@
                && entries_view(o.fields@) == fields && final(builder).registered() == old(
                builder,
            ).registered() + ids,
            Err((f, ids)) => r matches Err(e) && filter_schema_error(e, f) && final(builder).registered()
                == old(builder).registered() + ids,
        },
        r matches Ok(TypeInfo::InputObject(o)) ==> entries_distinct(entries_view(o.fields@)),
{
    assert(builder.registered() + Seq::<TypeIdView>::empty() =~= builder.registered());
    let index = match find_key(models, model_name) {
        Some(index) => index,
        None => {
            return Err(SchemaError::InternalModelNotFound { model_name: model_name.duplicate() });
        },
    };
    proof {
        lemma_first_key_unique(models@, model_name@, index as int);
    }
    let model = &models[index].1;
    let mut input_fields: Vec<(String, Namespaced<SchemaInputField>)> = Vec::new();
    let not_field = logical_field(
        builder,
        "_not",
        ModelFilterArgument::NotOp,
        TypeContainer::named_null(RegisteredTypeName(name_of_type.clone())),
    );
    let and_field = logical_field(
        builder,
        "_and",
        ModelFilterArgument::AndOp,
        TypeContainer::list_null(TypeContainer::named_non_null(RegisteredTypeName(name_of_type.clone()))),
    );
    let or_field = logical_field(
        builder,
        "_or",
        ModelFilterArgument::OrOp,
        TypeContainer::list_null(TypeContainer::named_non_null(RegisteredTypeName(name_of_type.clone()))),
    );
    input_fields.push(not_field);
    input_fields.push(and_field);
    input_fields.push(or_field);
    let ghost base = logical_fields(name_of_type@);
    proof {
        reveal_strlit("_not");
        reveal_strlit("_and");
        reveal_strlit("_or");
        assert(entries_view(input_fields@) =~= base);
        assert("_not"@[1] != "_and"@[1]);
        assert("_not"@[1] != "_or"@[1]);
        assert("_and"@[1] != "_or"@[1]);
        assert(base[0].0 != base[1].0);
        assert(base[0].0 != base[2].0);
        assert(base[1].0 != base[2].0);
        assert(entries_distinct(base));
    }
    let object_type_representation = get_object_type_representation(types, &model.data_type)?;
    let filter_expression = match &model.graphql_api.filter_expression {
        None => {
            assert(builder.registered() + Seq::<TypeIdView>::empty() =~= builder.registered());
            return Ok(TypeInfo::InputObject(InputObject { name: name_of_type.clone(), fields: input_fields }));
        },
        Some(fe) => fe,
    };
    let sfs = &filter_expression.scalar_fields;
    let ghost ot = *object_type_representation;
    let ghost start = builder.registered();
    assert(start + Seq::<TypeIdView>::empty() =~= start);
    assert(model_filter_schema(types@, models@, name_of_type@, model_name@) == column_fields(
        ot,
        sfs@,
        sfs.len() as int,
        base,
    ));
    let mut i: usize = 0;
    while i < sfs.len()
        invariant
            i <= sfs.len(),
            model_filter_schema(types@, models@, name_of_type@, model_name@) == column_fields(
                ot,
                sfs@,
                sfs.len() as int,
                base,
            ),
            ot == *object_type_representation,
            start == old(builder).registered(),
            column_fields(ot, sfs@, i as int, base) matches Ok((acc, ids)) && acc == entries_view(
                input_fields@,
            ) && builder.registered() == start + ids,
            entries_distinct(entries_view(input_fields@)),
        decreases sfs.len() - i,
    {
        let (field_name, comparison_expression) = (&sfs[i].0, &sfs[i].1);
        let ghost prev = column_fields(ot, sfs@, i as int, base);
        let graphql_name = match mk_name(field_name.0.as_str()) {
            Ok(n) => n,
            Err(_) => {
                proof {
                    lemma_column_fields_failure_persists(ot, sfs@, base, i + 1, sfs.len() as int);
                }
                return Err(SchemaError::InvalidGraphQlName { name: field_name.0.clone() });
            },
        };
        let registered = match get_scalar_comparison_input_type(builder, comparison_expression) {
            Ok(n) => n,
            Err(e) => {
                proof {
                    let ops = comparison_expression.operators@;
                    assert(sfs@[i as int].1 == *comparison_expression);
                    lemma_column_fields_failure_persists(ot, sfs@, base, i + 1, sfs.len() as int);
                    assert(exists|k: int|
                        first_invalid_operator(ops, k) && e->InvalidGraphQlName_name@ == ops[k].0@);
                    let f = FilterSchemaFailure::InvalidOperatorName(ops);
                    assert(f->InvalidOperatorName_0 == ops);
                    assert(filter_schema_error(e, f));
                }
                return Err(e);
            },
        };
        let roles = get_allowed_roles_for_field(object_type_representation, field_name);
        let permissions = without_annotations(roles);
        let field = SchemaInputField {
            name: graphql_name.clone(),
            info: InputAnnotation::ModelFilterArgument(
                ModelFilterArgument::Field { ndc_column: comparison_expression.ndc_column.clone() },
            ),
            field_type: TypeContainer::named_null(registered),
        };
        let namespaced = builder.conditional_namespaced(field, permissions);
        proof {
            let ids = prev->Ok_0.1;
            assert(start + ids.push(comparison_type_id(*comparison_expression)) =~= (start + ids).push(
                comparison_type_id(*comparison_expression),
            ));
            assert(namespaced@ == column_field(ot, field_name@, *comparison_expression));
        }
        set_entry(&mut input_fields, graphql_name, namespaced);
        i = i + 1;
    }
    Ok(TypeInfo::InputObject(InputObject { name: name_of_type.clone(), fields: input_fields }))
}

/// The fields of a comparison expression type for the first `n` operators:
/// each operator takes its operand type, made nullable, and every role sees
/// it; with the types registered for them, or the failure with the types
/// registered before it.
pub open spec fn scalar_comparison_fields(
    types: Seq<(Qualified<CustomTypeName>, TypeRepresentation)>,
    ops: Seq<(String, QualifiedTypeReference)>,
    n: int,
) -> Result<
    (Seq<(Seq<char>, NamespacedView<InputFieldView>)>, Seq<TypeIdView>),
    (TypeFailure, Seq<TypeIdView>),
>
    decreases n,
{
    if n <= 0 || n > ops.len() {
        Ok((Seq::empty(), Seq::empty()))
    } else {
        match scalar_comparison_fields(types, ops, n - 1) {
            Err(f) => Err(f),
            Ok((acc, ids)) => match input_type_ids(types, ops[n - 1].1@) {
                Err(f) => Err((f, ids)),
                Ok((c, more)) => {
                    let name = ops[n - 1].0@;
                    let field = NamespacedView {
                        data: InputFieldView {
                            name,
                            info: InputAnnotationView::ModelFilterScalarExpression,
                            field_type: TypeContainerView { base: c.base, nullable: true },
                        },
                        visibility: VisibilityView::AllowAll(None),
                    };
                    Ok((upsert(acc, name, field), ids + more))
                },
            },
        }
    }
}

proof fn lemma_scalar_comparison_failure_persists(
    types: Seq<(Qualified<CustomTypeName>, TypeRepresentation)>,
    ops: Seq<(String, QualifiedTypeReference)>,
    k: int,
    n: int,
)
    requires
        1 <= k <= n <= ops.len(),
        scalar_comparison_fields(types, ops, k) is Err,
    ensures
        scalar_comparison_fields(types, ops, n) == scalar_comparison_fields(types, ops, k),
    decreases n - k,
{
    if k < n {
        lemma_scalar_comparison_failure_persists(types, ops, k, n - 1);
    }
}

/// The comparison expression type of a scalar, named `name_of_type`: a
/// nullable field for each operator, of the input type of its operand.
pub fn build_scalar_comparison_input(
    types: &Types,
    builder: &mut Builder,
    name_of_type: &String,
    operators: &Vec<(String, QualifiedTypeReference)>,
) -> (r: Result<TypeInfo, SchemaError>)
    ensures
        match scalar_comparison_fields(types@, operators@, operators.len() as int) {
            Ok((fields, ids)) => r matches Ok(TypeInfo::InputObject(o)) && o.name@ == name_of_type@
                && entries_view(o.fields@) == fields && final(builder).registered() == old(
                builder,
            ).registered() + ids,
            Err((f, ids)) => r matches Err(e) && type_error(e, f) && final(builder).registered()
                == old(builder).registered() + ids,
        },
        r matches Ok(TypeInfo::InputObject(o)) ==> entries_distinct(entries_view(o.fields@)),
{
    let ghost start = builder.registered();
    let mut fields: Vec<(String, Namespaced<SchemaInputField>)> = Vec::new();
    assert(entries_view(fields@) =~= Seq::<(Seq<char>, NamespacedView<InputFieldView>)>::empty());
    assert(start + Seq::<TypeIdView>::empty() =~= start);
    let mut i: usize = 0;
    while i < operators.len()
        invariant
            i <= operators.len(),
            start == old(builder).registered(),
            scalar_comparison_fields(types@, operators@, i as int) matches Ok((acc, ids)) && acc
                == entries_view(fields@) && builder.registered() == start + ids,
            entries_distinct(entries_view(fields@)),
        decreases operators.len() - i,
    {
        let ghost prev = scalar_comparison_fields(types@, operators@, i as int);
        let input_type = match get_input_type(types, builder, &operators[i].1) {
            Ok(t) => t,
            Err(e) => {
                proof {
                    lemma_scalar_comparison_failure_persists(types@, operators@, i + 1, operators.len() as int);
                }
                return Err(e);
            },
        };
        let field = SchemaInputField {
            name: operators[i].0.clone(),
            info: InputAnnotation::ModelFilterScalarExpression,
            field_type: TypeContainer { base: input_type.base, nullable: true },
        };
        let namespaced = builder.allow_all_namespaced(field, None);
        proof {
            let ids = prev->Ok_0.1;
            let more = input_type_ids(types@, operators@[i as int].1@)->Ok_0.1;
            assert(start + (ids + more) =~= (start + ids) + more);
        }
        set_entry(&mut fields, operators[i].0.clone(), namespaced);
        i = i + 1;
    }
    Ok(TypeInfo::InputObject(InputObject { name: name_of_type.clone(), fields }))
}

} // verus!
