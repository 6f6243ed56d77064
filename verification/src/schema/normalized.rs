//! GraphQL input values as the executor sees them after normalization: each
//! input field carries the annotation the schema gave it.

use vstd::prelude::*;
use vstd::string::*;

use super::operations::error::Error;
use crate::json::{json_of_float_bits, JsonNumber, JsonValue, JsonView};
use crate::metadata::resolved::subgraph::{QualifiedTypeReference, QualifiedTypeReferenceView};
use crate::open_dds::names::{FieldName, Ident};
use crate::schema::graphql::{OutputAnnotation, OutputAnnotationView, TypeContainer};
use crate::schema::types::NamespaceAnnotation;

verus! {

/// What a field of a model's `where` argument stands for.
#[derive(Debug, PartialEq, Eq)]
pub enum ModelFilterArgument {
    AndOp,
    OrOp,
    NotOp,
    Field { ndc_column: String },
}

/// The annotation the schema gives an input field.
#[derive(Debug, PartialEq, Eq)]
pub enum InputAnnotation {
    ModelFilterArgument(ModelFilterArgument),
    ModelFilterScalarExpression,
    ModelFilterExpression,
    ModelArgumentsExpression,
    ModelLimitArgument,
    ModelOffsetArgument,
    ModelOrderByExpression,
    ModelUniqueIdentifierArgument { field_name: FieldName },
    /// The annotation of an output field, which the `id` argument of the
    /// node field carries.
    OutputField { name: FieldName },
    ModelArgument { argument_type: QualifiedTypeReference, ndc_table_argument: Option<String> },
    InputObjectField { field_name: FieldName, field_type: QualifiedTypeReference },
    CommandArgument { argument_type: QualifiedTypeReference, ndc_func_proc_argument: Option<String> },
}

/// The abstract value of a filter argument.
pub enum FilterArgumentView {
    And,
    Or,
    Not,
    Field(Seq<char>),
}

/// The abstract value of an input annotation.
pub enum InputAnnotationView {
    ModelFilterArgument(FilterArgumentView),
    ModelFilterScalarExpression,
    ModelFilterExpression,
    ModelArgumentsExpression,
    ModelLimitArgument,
    ModelOffsetArgument,
    ModelOrderByExpression,
    ModelUniqueIdentifierArgument(Seq<char>),
    OutputField(Seq<char>),
    ModelArgument(QualifiedTypeReferenceView, Option<Seq<char>>),
    InputObjectField(Seq<char>, QualifiedTypeReferenceView),
    CommandArgument(QualifiedTypeReferenceView, Option<Seq<char>>),
}

pub open spec fn opt_string_view(o: Option<String>) -> Option<Seq<char>> {
    match o {
        Some(s) => Some(s@),
        None => None,
    }
}

impl View for ModelFilterArgument {
    type V = FilterArgumentView;

    open spec fn view(&self) -> FilterArgumentView {
        match self {
            ModelFilterArgument::AndOp => FilterArgumentView::And,
            ModelFilterArgument::OrOp => FilterArgumentView::Or,
            ModelFilterArgument::NotOp => FilterArgumentView::Not,
            ModelFilterArgument::Field { ndc_column } => FilterArgumentView::Field(ndc_column@),
        }
    }
}

impl View for InputAnnotation {
    type V = InputAnnotationView;

    open spec fn view(&self) -> InputAnnotationView {
        match self {
            InputAnnotation::ModelFilterArgument(a) => InputAnnotationView::ModelFilterArgument(a@),
            InputAnnotation::ModelFilterScalarExpression => InputAnnotationView::ModelFilterScalarExpression,
            InputAnnotation::ModelFilterExpression => InputAnnotationView::ModelFilterExpression,
            InputAnnotation::ModelArgumentsExpression => InputAnnotationView::ModelArgumentsExpression,
            InputAnnotation::ModelLimitArgument => InputAnnotationView::ModelLimitArgument,
            InputAnnotation::ModelOffsetArgument => InputAnnotationView::ModelOffsetArgument,
            InputAnnotation::ModelOrderByExpression => InputAnnotationView::ModelOrderByExpression,
            InputAnnotation::ModelUniqueIdentifierArgument { field_name } => InputAnnotationView::ModelUniqueIdentifierArgument(
                field_name@,
            ),
            InputAnnotation::OutputField { name } => InputAnnotationView::OutputField(name@),
            InputAnnotation::ModelArgument { argument_type, ndc_table_argument } => InputAnnotationView::ModelArgument(
                argument_type@,
                opt_string_view(*ndc_table_argument),
            ),
            InputAnnotation::InputObjectField { field_name, field_type } => InputAnnotationView::InputObjectField(
                field_name@,
                field_type@,
            ),
            InputAnnotation::CommandArgument { argument_type, ndc_func_proc_argument } => InputAnnotationView::CommandArgument(
                argument_type@,
                opt_string_view(*ndc_func_proc_argument),
            ),
        }
    }
}

impl InputAnnotation {
    /// A copy of this annotation.
    pub fn duplicate(&self) -> (r: InputAnnotation)
        ensures
            r@ == self@,
    {
        match self {
            InputAnnotation::ModelFilterArgument(a) => InputAnnotation::ModelFilterArgument(
                match a {
                    ModelFilterArgument::AndOp => ModelFilterArgument::AndOp,
                    ModelFilterArgument::OrOp => ModelFilterArgument::OrOp,
                    ModelFilterArgument::NotOp => ModelFilterArgument::NotOp,
                    ModelFilterArgument::Field { ndc_column } => ModelFilterArgument::Field {
                        ndc_column: ndc_column.clone(),
                    },
                },
            ),
            InputAnnotation::ModelFilterScalarExpression => InputAnnotation::ModelFilterScalarExpression,
            InputAnnotation::ModelFilterExpression => InputAnnotation::ModelFilterExpression,
            InputAnnotation::ModelArgumentsExpression => InputAnnotation::ModelArgumentsExpression,
            InputAnnotation::ModelLimitArgument => InputAnnotation::ModelLimitArgument,
            InputAnnotation::ModelOffsetArgument => InputAnnotation::ModelOffsetArgument,
            InputAnnotation::ModelOrderByExpression => InputAnnotation::ModelOrderByExpression,
            InputAnnotation::ModelUniqueIdentifierArgument { field_name } => InputAnnotation::ModelUniqueIdentifierArgument {
                field_name: field_name.duplicate(),
            },
            InputAnnotation::OutputField { name } => InputAnnotation::OutputField { name: name.duplicate() },
            InputAnnotation::ModelArgument { argument_type, ndc_table_argument } => InputAnnotation::ModelArgument {
                argument_type: argument_type.duplicate(),
                ndc_table_argument: match ndc_table_argument {
                    Some(t) => Some(t.clone()),
                    None => None,
                },
            },
            InputAnnotation::InputObjectField { field_name, field_type } => InputAnnotation::InputObjectField {
                field_name: field_name.duplicate(),
                field_type: field_type.duplicate(),
            },
            InputAnnotation::CommandArgument { argument_type, ndc_func_proc_argument } => InputAnnotation::CommandArgument {
                argument_type: argument_type.duplicate(),
                ndc_func_proc_argument: match ndc_func_proc_argument {
                    Some(t) => Some(t.clone()),
                    None => None,
                },
            },
        }
    }
}

/// A call of a field: its name, its arguments, each with the annotation the
/// schema gave it, and the annotation of the field for the role that asks.
#[derive(Debug)]
pub struct FieldCall {
    pub name: String,
    pub arguments: Vec<InputField>,
    pub namespaced: Option<NamespaceAnnotation>,
}

/// The position of the first of the arguments from position `i` on that
/// has the name.
pub open spec fn argument_position(args: Seq<InputField>, name: Seq<char>, i: int) -> Option<int>
    decreases args.len() - i,
{
    if i < 0 || i >= args.len() {
        None
    } else if args[i].name@ == name {
        Some(i)
    } else {
        argument_position(args, name, i + 1)
    }
}

/// Whether an error says that the argument is missing.
pub open spec fn argument_not_found(e: Error, name: Seq<char>) -> bool {
    e matches Error::ArgumentNotFound { argument_name } && argument_name@ == name
}

impl FieldCall {
    /// The argument with the name, which the field must have.
    pub fn expected_argument(&self, name: &str) -> (r: Result<&InputField, Error>)
        ensures
            match argument_position(self.arguments@, name@, 0) {
                Some(i) => r matches Ok(a) && *a == self.arguments@[i],
                None => r matches Err(e) && argument_not_found(e, name@),
            },
    {
        let mut i: usize = 0;
        while i < self.arguments.len()
            invariant
                i <= self.arguments.len(),
                argument_position(self.arguments@, name@, 0) == argument_position(self.arguments@, name@, i as int),
            decreases self.arguments.len() - i,
        {
            if crate::text::str_eq(self.arguments[i].name.as_str(), name) {
                return Ok(&self.arguments[i]);
            }
            i = i + 1;
        }
        Err(Error::ArgumentNotFound { argument_name: name.to_string() })
    }
}

/// A field of a normalized selection set: the alias it is answered under,
/// its call, the annotation the schema gave it, its type, and the selection
/// set of its result.
#[derive(Debug)]
pub struct NormalizedField {
    pub alias: String,
    pub field_call: FieldCall,
    pub info: Annotation,
    pub type_container: TypeContainer,
    pub selection_set: NormalizedSelectionSet,
}

/// A normalized selection set: the type it selects from, where known, and
/// its fields in the order of the request.
#[derive(Debug)]
pub struct NormalizedSelectionSet {
    pub typename: Option<String>,
    pub fields: Vec<NormalizedField>,
}

/// The annotation the schema gave a field or an argument: that of an input
/// or that of an output.
#[derive(Debug, PartialEq)]
pub enum Annotation {
    Input(InputAnnotation),
    Output(OutputAnnotation),
}

/// The abstract value of an annotation.
pub enum AnnotationView {
    Input(InputAnnotationView),
    Output(OutputAnnotationView),
}

impl View for Annotation {
    type V = AnnotationView;

    open spec fn view(&self) -> AnnotationView {
        match self {
            Annotation::Input(a) => AnnotationView::Input(a@),
            Annotation::Output(a) => AnnotationView::Output(a@),
        }
    }
}

impl Annotation {
    /// A copy of this annotation.
    pub fn duplicate(&self) -> (r: Annotation)
        ensures
            r@ == self@,
    {
        match self {
            Annotation::Input(a) => Annotation::Input(a.duplicate()),
            Annotation::Output(a) => Annotation::Output(a.duplicate()),
        }
    }
}

/// A normalized GraphQL input value. A float is held by its IEEE-754
/// binary64 bit pattern; an object keeps its fields in the order given.
#[derive(Debug, PartialEq, Eq)]
pub enum InputValue {
    Null,
    Integer(i64),
    Float(u64),
    String(String),
    Boolean(bool),
    Id(String),
    Json(JsonValue),
    List(Vec<InputValue>),
    Object(Vec<InputField>),
}

/// A field of an input object, or an argument: its name, its annotation and
/// its value.
#[derive(Debug, PartialEq, Eq)]
pub struct InputField {
    pub name: String,
    pub info: InputAnnotation,
    pub value: InputValue,
}

/// The JSON form of a normalized value.
pub open spec fn value_json(v: InputValue) -> JsonView
    decreases v, 0nat,
{
    match v {
        InputValue::Null => JsonView::Null,
        InputValue::Integer(i) => JsonView::Number(
            if i >= 0 {
                JsonNumber::PosInt(i as u64)
            } else {
                JsonNumber::NegInt(i)
            },
        ),
        InputValue::Float(bits) => json_of_float_bits(bits),
        InputValue::String(s) => JsonView::String(s@),
        InputValue::Boolean(b) => JsonView::Bool(b),
        InputValue::Id(s) => JsonView::String(s@),
        InputValue::Json(j) => j@,
        InputValue::List(vs) => JsonView::Array(
            Seq::new(
                vs.len() as nat,
                |i: int|
                    if 0 <= i < vs.len() {
                        value_json(vs[i])
                    } else {
                        JsonView::Null
                    },
            ),
        ),
        InputValue::Object(fs) => JsonView::Object(
            Seq::new(
                fs.len() as nat,
                |i: int|
                    if 0 <= i < fs.len() {
                        (fs[i].name@, value_json(fs[i].value))
                    } else {
                        (Seq::empty(), JsonView::Null)
                    },
            ),
        ),
    }
}

/// The value of an integer that fits in a `u32`; none for any other value.
pub open spec fn int_u32(v: InputValue) -> Option<u32> {
    match v {
        InputValue::Integer(i) => if 0 <= i <= u32::MAX {
            Some(i as u32)
        } else {
            None
        },
        _ => None,
    }
}

/// Whether an error says that a value of the kind was expected.
pub open spec fn unexpected_value(e: Error, expected: Seq<char>) -> bool {
    e matches Error::UnexpectedValue { expected: x } && x@ == expected
}

impl InputValue {
    /// Whether the value is `null`.
    pub fn is_null(&self) -> (r: bool)
        ensures
            r == (*self is Null),
    {
        match self {
            InputValue::Null => true,
            _ => false,
        }
    }

    /// The elements of a list.
    pub fn as_list(&self) -> (r: Result<&Vec<InputValue>, Error>)
        ensures
            match *self {
                InputValue::List(vs) => r == Ok::<&Vec<InputValue>, Error>(&vs),
                _ => r matches Err(e) && unexpected_value(e, "list"@),
            },
    {
        match self {
            InputValue::List(vs) => Ok(vs),
            _ => Err(Error::UnexpectedValue { expected: String::from_str("list") }),
        }
    }

    /// The fields of an object.
    pub fn as_object(&self) -> (r: Result<&Vec<InputField>, Error>)
        ensures
            match *self {
                InputValue::Object(fs) => r == Ok::<&Vec<InputField>, Error>(&fs),
                _ => r matches Err(e) && unexpected_value(e, "object"@),
            },
    {
        match self {
            InputValue::Object(fs) => Ok(fs),
            _ => Err(Error::UnexpectedValue { expected: String::from_str("object") }),
        }
    }

    /// The boolean of a boolean value.
    pub fn as_boolean(&self) -> (r: Result<bool, Error>)
        ensures
            match *self {
                InputValue::Boolean(b) => r == Ok::<bool, Error>(b),
                _ => r matches Err(e) && unexpected_value(e, "boolean"@),
            },
    {
        match self {
            InputValue::Boolean(b) => Ok(*b),
            _ => Err(Error::UnexpectedValue { expected: String::from_str("boolean") }),
        }
    }

    /// The text of a string value.
    pub fn as_string(&self) -> (r: Result<&String, Error>)
        ensures
            match *self {
                InputValue::String(s) => r == Ok::<&String, Error>(&s),
                _ => r matches Err(e) && unexpected_value(e, "string"@),
            },
    {
        match self {
            InputValue::String(s) => Ok(s),
            _ => Err(Error::UnexpectedValue { expected: String::from_str("string") }),
        }
    }

    /// The text of an ID value.
    pub fn as_id(&self) -> (r: Result<&String, Error>)
        ensures
            match *self {
                InputValue::Id(s) => r == Ok::<&String, Error>(&s),
                _ => r matches Err(e) && unexpected_value(e, "id"@),
            },
    {
        match self {
            InputValue::Id(s) => Ok(s),
            _ => Err(Error::UnexpectedValue { expected: String::from_str("id") }),
        }
    }

    /// The integer of an integer value.
    pub fn as_int_i64(&self) -> (r: Result<i64, Error>)
        ensures
            match *self {
                InputValue::Integer(i) => r == Ok::<i64, Error>(i),
                _ => r matches Err(e) && unexpected_value(e, "integer"@),
            },
    {
        match self {
            InputValue::Integer(i) => Ok(*i),
            _ => Err(Error::UnexpectedValue { expected: String::from_str("integer") }),
        }
    }

    /// The value of an integer that fits in a `u32`.
    pub fn as_int_u32(&self) -> (r: Result<u32, Error>)
        ensures
            match int_u32(*self) {
                Some(v) => r == Ok::<u32, Error>(v),
                None => r matches Err(e) && unexpected_value(e, "integer"@),
            },
    {
        match self {
            InputValue::Integer(i) => if 0 <= *i && *i <= 4294967295 {
                Ok(*i as u32)
            } else {
                Err(Error::UnexpectedValue { expected: String::from_str("integer") })
            },
            _ => Err(Error::UnexpectedValue { expected: String::from_str("integer") }),
        }
    }

    /// The bit pattern of a float value.
    pub fn as_float(&self) -> (r: Result<u64, Error>)
        ensures
            match *self {
                InputValue::Float(b) => r == Ok::<u64, Error>(b),
                _ => r matches Err(e) && unexpected_value(e, "float"@),
            },
    {
        match self {
            InputValue::Float(b) => Ok(*b),
            _ => Err(Error::UnexpectedValue { expected: String::from_str("float") }),
        }
    }

    /// The JSON form of the value.
    pub fn as_json(&self) -> (r: JsonValue)
        ensures
            r@ == value_json(*self),
        decreases self, 1nat,
    {
        match self {
            InputValue::Null => JsonValue::Null,
            InputValue::Integer(i) => JsonValue::from_i64(*i),
            InputValue::Float(bits) => JsonValue::from_float_bits(*bits),
            InputValue::String(s) => JsonValue::String(s.clone()),
            InputValue::Boolean(b) => JsonValue::Bool(*b),
            InputValue::Id(s) => JsonValue::String(s.clone()),
            InputValue::Json(j) => j.clone(),
            InputValue::List(vs) => {
                let out = list_json(vs);
                let r = JsonValue::Array(out);
                proof {
                    match (r@, value_json(*self)) {
                        (JsonView::Array(s1), JsonView::Array(s2)) => {
                            assert forall|j: int| 0 <= j < s1.len() implies s1[j] == s2[j] by {
                                assert(s1[j] == out@[j]@);
                                assert(s2[j] == value_json(vs@[j]));
                            }
                            assert(s1 =~= s2);
                        },
                        _ => {},
                    }
                }
                r
            },
            InputValue::Object(fs) => {
                let out = object_json(fs);
                let r = JsonValue::Object(out);
                proof {
                    match (r@, value_json(*self)) {
                        (JsonView::Object(s1), JsonView::Object(s2)) => {
                            assert forall|j: int| 0 <= j < s1.len() implies s1[j] == s2[j] by {
                                assert(s1[j] == (out@[j].0@, out@[j].1@));
                                assert(s2[j] == (fs@[j].name@, value_json(fs@[j].value)));
                            }
                            assert(s1 =~= s2);
                        },
                        _ => {},
                    }
                }
                r
            },
        }
    }
}

/// The JSON forms of the elements of a list.
fn list_json(vs: &Vec<InputValue>) -> (out: Vec<JsonValue>)
    ensures
        out.len() == vs.len(),
        forall|j: int| 0 <= j < vs.len() ==> #[trigger] out@[j]@ == value_json(vs@[j]),
    decreases vs, 0nat,
{
    let mut out: Vec<JsonValue> = Vec::new();
    let mut i: usize = 0;
    while i < vs.len()
        invariant
            i <= vs.len(),
            out.len() == i,
            forall|j: int| 0 <= j < i ==> #[trigger] out@[j]@ == value_json(vs@[j]),
        decreases vs.len() - i,
    {
        assert(decreases_to!(vs => vs[i as int]));
        out.push(vs[i].as_json());
        i = i + 1;
    }
    out
}

/// The JSON members of the fields of an object.
fn object_json(fs: &Vec<InputField>) -> (out: Vec<(String, JsonValue)>)
    ensures
        out.len() == fs.len(),
        forall|j: int|
            0 <= j < fs.len() ==> (#[trigger] out@[j]).0@ == fs@[j].name@ && out@[j].1@ == value_json(
                fs@[j].value,
            ),
    decreases fs, 0nat,
{
    let mut out: Vec<(String, JsonValue)> = Vec::new();
    let mut i: usize = 0;
    while i < fs.len()
        invariant
            i <= fs.len(),
            out.len() == i,
            forall|j: int|
                0 <= j < i ==> (#[trigger] out@[j]).0@ == fs@[j].name@ && out@[j].1@ == value_json(
                    fs@[j].value,
                ),
        decreases fs.len() - i,
    {
        assert(decreases_to!(fs => fs[i as int]));
        let v = fs[i].value.as_json();
        out.push((fs[i].name.clone(), v));
        i = i + 1;
    }
    out
}

} // verus!
