//! The values of GraphQL arguments as data connectors take them.

use vstd::prelude::*;
use vstd::string::*;

use crate::json::{json_of_float_bits, JsonNumber, JsonValue, JsonView};
use crate::keyed::{lemma_upsert_holds, lemma_upsert_keeps, 
    entries_distinct, entries_view, find_key, first_key, has_key, lemma_first_key_unique, set_entry,
    upsert,
};
use crate::metadata::resolved::subgraph::{
    Qualified, QualifiedBaseType, QualifiedBaseTypeView, QualifiedTypeName, QualifiedTypeNameView,
    QualifiedTypeReference, QualifiedTypeReferenceView,
};
use crate::metadata::resolved::types::{FieldMapping, TypeMapping};
use crate::open_dds::names::{FieldName, Ident};
use crate::open_dds::types::{CustomTypeName, InbuiltType};
use crate::schema::normalized::{value_json, unexpected_value, InputAnnotation, InputAnnotationView, InputField, InputValue};
use crate::schema::operations::error::unexpected_annotation;
use crate::schema::operations::error::{
    Error, InternalDeveloperError, InternalEngineError, InternalError,
};

verus! {

/// Why an argument value could not be mapped.
pub enum ArgumentFailure {
    UnexpectedValue(Seq<char>),
    UnexpectedAnnotation(InputAnnotationView),
    TypeMappingNotFound((Seq<char>, Seq<char>)),
    FieldMappingNotFound(Seq<char>),
}

pub open spec fn field_mapping_message(field: Seq<char>) -> Seq<char> {
    "unable to find mapping for field "@ + field
}

/// Whether an error is the one reported for a failure of the argument.
pub open spec fn argument_error(e: Error, argument_name: Seq<char>, f: ArgumentFailure) -> bool {
    match f {
        ArgumentFailure::UnexpectedValue(x) => unexpected_value(e, x),
        ArgumentFailure::UnexpectedAnnotation(a) => unexpected_annotation(e, a),
        ArgumentFailure::TypeMappingNotFound(t) => e matches Error::InternalError(
            InternalError::Developer(
                InternalDeveloperError::TypeMappingNotFoundForArgument { typename, argument_name: a },
            ),
        ) && typename@ == t && a@ == argument_name,
        ArgumentFailure::FieldMappingNotFound(field) => e matches Error::InternalError(
            InternalError::Engine(InternalEngineError::InternalGeneric { description }),
        ) && description@ == field_mapping_message(field),
    }
}

/// The JSON value of an argument value of the type, as the data connector
/// takes it: `null` stays `null`; a list maps its elements; a built-in
/// scalar is taken as it is; an object of a custom type has each field
/// renamed to the column the type mapping gives it.
pub open spec fn argument_json(
    t: QualifiedTypeReferenceView,
    v: InputValue,
    tm: Seq<(Qualified<CustomTypeName>, TypeMapping)>,
) -> Result<JsonView, ArgumentFailure>
    decreases v, 0int,
{
    if v is Null {
        Ok(JsonView::Null)
    } else {
        match t.underlying_type {
            QualifiedBaseTypeView::List(elem) => match v {
                InputValue::List(vs) => match list_json(*elem, vs, vs.len() as int, tm) {
                    Ok(js) => Ok(JsonView::Array(js)),
                    Err(f) => Err(f),
                },
                _ => Err(ArgumentFailure::UnexpectedValue("list"@)),
            },
            QualifiedBaseTypeView::Named(QualifiedTypeNameView::Inbuilt(InbuiltType::String)) => match v {
                InputValue::String(s) => Ok(JsonView::String(s@)),
                _ => Err(ArgumentFailure::UnexpectedValue("string"@)),
            },
            QualifiedBaseTypeView::Named(QualifiedTypeNameView::Inbuilt(InbuiltType::Float)) => match v {
                InputValue::Float(b) => Ok(json_of_float_bits(b)),
                _ => Err(ArgumentFailure::UnexpectedValue("float"@)),
            },
            QualifiedBaseTypeView::Named(QualifiedTypeNameView::Inbuilt(InbuiltType::Int)) => match v {
                InputValue::Integer(i) => Ok(
                    JsonView::Number(
                        if i >= 0 {
                            JsonNumber::PosInt(i as u64)
                        } else {
                            JsonNumber::NegInt(i)
                        },
                    ),
                ),
                _ => Err(ArgumentFailure::UnexpectedValue("integer"@)),
            },
            QualifiedBaseTypeView::Named(QualifiedTypeNameView::Inbuilt(InbuiltType::ID)) => match v {
                InputValue::Id(s) => Ok(JsonView::String(s@)),
                _ => Err(ArgumentFailure::UnexpectedValue("id"@)),
            },
            QualifiedBaseTypeView::Named(QualifiedTypeNameView::Inbuilt(InbuiltType::Boolean)) => match v {
                InputValue::Boolean(b) => Ok(JsonView::Bool(b)),
                _ => Err(ArgumentFailure::UnexpectedValue("boolean"@)),
            },
            QualifiedBaseTypeView::Named(QualifiedTypeNameView::Custom(name)) => if !has_key(tm, name) {
                Err(ArgumentFailure::TypeMappingNotFound(name))
            } else {
                match tm[first_key(tm, name)].1 {
                    TypeMapping::Object { field_mappings } => match v {
                        InputValue::Object(fs) => match object_json(field_mappings@, fs, fs.len() as int, tm) {
                            Ok(members) => Ok(JsonView::Object(members)),
                            Err(f) => Err(f),
                        },
                        _ => Err(ArgumentFailure::UnexpectedValue("object"@)),
                    },
                }
            },
        }
    }
}

/// Whether a value is of the kind a built-in scalar type takes.
pub open spec fn scalar_matches(i: InbuiltType, v: InputValue) -> bool {
    match i {
        InbuiltType::ID => v is Id,
        InbuiltType::Int => v is Integer,
        InbuiltType::Float => v is Float,
        InbuiltType::Boolean => v is Boolean,
        InbuiltType::String => v is String,
    }
}

/// Law: an argument of a built-in scalar type whose value is of that type's
/// kind is passed on unchanged, as the JSON form of the value itself; a
/// value of another kind, other than `null`, is refused; `null` stays
/// `null` whatever the type.
pub proof fn law_scalar_argument_passes_unchanged(
    t: QualifiedTypeReferenceView,
    i: InbuiltType,
    v: InputValue,
    tm: Seq<(Qualified<CustomTypeName>, TypeMapping)>,
)
    requires
        t.underlying_type == QualifiedBaseTypeView::Named(QualifiedTypeNameView::Inbuilt(i)),
    ensures
        scalar_matches(i, v) ==> argument_json(t, v, tm) == Ok::<JsonView, ArgumentFailure>(value_json(v)),
        !scalar_matches(i, v) && !(v is Null) ==> argument_json(t, v, tm) is Err,
        v is Null ==> argument_json(t, v, tm) == Ok::<JsonView, ArgumentFailure>(JsonView::Null),
{
}

/// Law: a `Boolean` argument given the boolean `b` is passed on as the JSON
/// boolean `b`.
pub proof fn law_boolean_argument(t: QualifiedTypeReferenceView, b: bool, tm: Seq<(Qualified<CustomTypeName>, TypeMapping)>)
    requires
        t.underlying_type == QualifiedBaseTypeView::Named(QualifiedTypeNameView::Inbuilt(InbuiltType::Boolean)),
    ensures
        argument_json(t, InputValue::Boolean(b), tm) == Ok::<JsonView, ArgumentFailure>(JsonView::Bool(b)),
{
}

/// The elements of a list argument: where each element gives a value, they
/// give those values in order; where one fails, the list fails.
proof fn lemma_list_elements(
    elem: QualifiedTypeReferenceView,
    vs: Vec<InputValue>,
    n: int,
    tm: Seq<(Qualified<CustomTypeName>, TypeMapping)>,
)
    requires
        0 <= n <= vs.len(),
    ensures
        (forall|k: int| 0 <= k < n ==> (#[trigger] argument_json(elem, vs@[k], tm)) is Ok) ==> (list_json(elem, vs, n, tm) matches Ok(
            js,
        ) && js.len() == n && forall|k: int|
            0 <= k < n ==> Ok::<JsonView, ArgumentFailure>(#[trigger] js[k]) == argument_json(elem, vs@[k], tm)),
        (exists|k: int| 0 <= k < n && (#[trigger] argument_json(elem, vs@[k], tm)) is Err) ==> list_json(elem, vs, n, tm) is Err,
    decreases n,
{
    if n > 0 {
        lemma_list_elements(elem, vs, n - 1, tm);
        if forall|k: int| 0 <= k < n ==> (#[trigger] argument_json(elem, vs@[k], tm)) is Ok {
            assert(argument_json(elem, vs@[n - 1], tm) is Ok);
            let js0 = list_json(elem, vs, n - 1, tm)->Ok_0;
            let js = list_json(elem, vs, n, tm)->Ok_0;
            assert(js == js0.push(argument_json(elem, vs@[n - 1], tm)->Ok_0));
            assert forall|k: int| 0 <= k < n implies Ok::<JsonView, ArgumentFailure>(#[trigger] js[k]) == argument_json(
                elem,
                vs@[k],
                tm,
            ) by {
                if k < n - 1 {
                    assert(js[k] == js0[k]);
                }
            }
        }
        if exists|k: int| 0 <= k < n && (#[trigger] argument_json(elem, vs@[k], tm)) is Err {
            let k = choose|k: int| 0 <= k < n && (#[trigger] argument_json(elem, vs@[k], tm)) is Err;
            if k < n - 1 {
                assert(0 <= k < n - 1 && argument_json(elem, vs@[k], tm) is Err);
            }
        }
    }
}

/// Law: a list argument is passed on as the JSON array of its elements,
/// each mapped by the element type, in order; it fails exactly when one of
/// its elements fails.
pub proof fn law_list_argument_maps_each_element(
    t: QualifiedTypeReferenceView,
    elem: QualifiedTypeReferenceView,
    vs: Vec<InputValue>,
    tm: Seq<(Qualified<CustomTypeName>, TypeMapping)>,
)
    requires
        t.underlying_type == QualifiedBaseTypeView::List(Box::new(elem)),
    ensures
        (forall|k: int| 0 <= k < vs.len() ==> (#[trigger] argument_json(elem, vs@[k], tm)) is Ok) ==> (argument_json(
            t,
            InputValue::List(vs),
            tm,
        ) matches Ok(JsonView::Array(js)) && js.len() == vs.len() && forall|k: int|
            0 <= k < vs.len() ==> Ok::<JsonView, ArgumentFailure>(#[trigger] js[k]) == argument_json(elem, vs@[k], tm)),
        (exists|k: int| 0 <= k < vs.len() && (#[trigger] argument_json(elem, vs@[k], tm)) is Err) ==> argument_json(
            t,
            InputValue::List(vs),
            tm,
        ) is Err,
{
    lemma_list_elements(elem, vs, vs.len() as int, tm);
}

/// The JSON values of the first `n` elements of a list of the type.
pub open spec fn list_json(
    elem: QualifiedTypeReferenceView,
    vs: Vec<InputValue>,
    n: int,
    tm: Seq<(Qualified<CustomTypeName>, TypeMapping)>,
) -> Result<Seq<JsonView>, ArgumentFailure>
    decreases vs, n,
{
    if n <= 0 || n > vs.len() {
        Ok(Seq::empty())
    } else {
        match list_json(elem, vs, n - 1, tm) {
            Err(f) => Err(f),
            Ok(js) => match argument_json(elem, vs[n - 1], tm) {
                Ok(j) => Ok(js.push(j)),
                Err(f) => Err(f),
            },
        }
    }
}

/// The JSON members of the first `n` fields of an object, each under the
/// column its field maps to.
pub open spec fn object_json(
    fm: Seq<(FieldName, FieldMapping)>,
    fs: Vec<InputField>,
    n: int,
    tm: Seq<(Qualified<CustomTypeName>, TypeMapping)>,
) -> Result<Seq<(Seq<char>, JsonView)>, ArgumentFailure>
    decreases fs, n,
{
    if n <= 0 || n > fs.len() {
        Ok(Seq::empty())
    } else {
        match object_json(fm, fs, n - 1, tm) {
            Err(f) => Err(f),
            Ok(members) => match fs[n - 1].info {
                InputAnnotation::InputObjectField { field_name, field_type } => if !has_key(
                    fm,
                    field_name@,
                ) {
                    Err(ArgumentFailure::FieldMappingNotFound(field_name@))
                } else {
                    match argument_json(field_type@, fs[n - 1].value, tm) {
                        Ok(j) => Ok(upsert(members, fm[first_key(fm, field_name@)].1.column@, j)),
                        Err(f) => Err(f),
                    }
                },
                _ => Err(ArgumentFailure::UnexpectedAnnotation(fs[n - 1].info@)),
            },
        }
    }
}

/// The column an input object field maps to under the field mappings.
pub open spec fn object_field_column(fm: Seq<(FieldName, FieldMapping)>, a: InputField) -> Seq<char> {
    match a.info {
        InputAnnotation::InputObjectField { field_name, .. } => fm[first_key(fm, field_name@)].1.column@,
        _ => Seq::empty(),
    }
}

/// Whether a field of an input object can be passed on: it is an input
/// object field with a column, and its value can be passed on as its type.
pub open spec fn object_field_ok(
    fm: Seq<(FieldName, FieldMapping)>,
    a: InputField,
    tm: Seq<(Qualified<CustomTypeName>, TypeMapping)>,
) -> bool {
    a.info matches InputAnnotation::InputObjectField { field_name, field_type } && has_key(fm, field_name@)
        && argument_json(field_type@, a.value, tm) is Ok
}

proof fn lemma_object_fields(
    fm: Seq<(FieldName, FieldMapping)>,
    fs: Vec<InputField>,
    n: int,
    tm: Seq<(Qualified<CustomTypeName>, TypeMapping)>,
)
    requires
        0 <= n <= fs.len(),
    ensures
        (object_json(fm, fs, n, tm) is Ok) <==> (forall|i: int| 0 <= i < n ==> object_field_ok(fm, #[trigger] fs@[i], tm)),
        object_json(fm, fs, n, tm) matches Ok(members) ==> forall|i: int|
            0 <= i < n && (forall|l: int| i < l < n ==> object_field_column(fm, #[trigger] fs@[l]) != object_field_column(fm, fs@[i]))
                ==> members.contains(
                (object_field_column(fm, #[trigger] fs@[i]), argument_json(
                    fs@[i].info->InputObjectField_field_type@,
                    fs@[i].value,
                    tm,
                )->Ok_0),
            ),
    decreases n,
{
    if n > 0 {
        lemma_object_fields(fm, fs, n - 1, tm);
        let prev = object_json(fm, fs, n - 1, tm);
        let a = fs@[n - 1];
        if prev is Ok && object_field_ok(fm, a, tm) {
            let m0 = prev->Ok_0;
            let key = object_field_column(fm, a);
            let val = argument_json(a.info->InputObjectField_field_type@, a.value, tm)->Ok_0;
            assert(object_json(fm, fs, n, tm) == Ok::<Seq<(Seq<char>, JsonView)>, ArgumentFailure>(upsert(m0, key, val)));
            lemma_upsert_holds(m0, key, val);
            assert forall|i: int| 0 <= i < n implies object_field_ok(fm, #[trigger] fs@[i], tm) by {
                if i == n - 1 {
                }
            }
            assert forall|i: int|
                0 <= i < n && (forall|l: int| i < l < n ==> object_field_column(fm, #[trigger] fs@[l]) != object_field_column(fm, fs@[i]))
                    implies upsert(m0, key, val).contains(
                (object_field_column(fm, #[trigger] fs@[i]), argument_json(
                    fs@[i].info->InputObjectField_field_type@,
                    fs@[i].value,
                    tm,
                )->Ok_0),
            ) by {
                if i < n - 1 {
                    assert(object_field_column(fm, fs@[n - 1]) != object_field_column(fm, fs@[i]));
                    assert forall|l: int| i < l < n - 1 implies object_field_column(fm, #[trigger] fs@[l]) != object_field_column(
                        fm,
                        fs@[i],
                    ) by {
                    }
                    lemma_upsert_keeps(
                        m0,
                        key,
                        val,
                        (object_field_column(fm, fs@[i]), argument_json(
                            fs@[i].info->InputObjectField_field_type@,
                            fs@[i].value,
                            tm,
                        )->Ok_0),
                    );
                }
            }
        } else if prev is Ok {
            assert(!object_field_ok(fm, fs@[n - 1], tm));
        } else {
            let i = choose|i: int| 0 <= i < n - 1 && !object_field_ok(fm, #[trigger] fs@[i], tm);
            assert(0 <= i < n && !object_field_ok(fm, fs@[i], tm));
        }
    }
}

/// Law: an argument of an object type is passed on as a JSON object in
/// which each of its fields stands under the column its field maps to, with
/// its value passed on as the field's type (a later field mapped to the same
/// column taking the place of an earlier one); it can be passed on exactly
/// when each of its fields is an input object field with a column whose
/// value can be passed on.
pub proof fn law_object_argument_renames_fields(
    fm: Seq<(FieldName, FieldMapping)>,
    fs: Vec<InputField>,
    tm: Seq<(Qualified<CustomTypeName>, TypeMapping)>,
)
    ensures
        (object_json(fm, fs, fs.len() as int, tm) is Ok) <==> (forall|i: int|
            0 <= i < fs.len() ==> object_field_ok(fm, #[trigger] fs@[i], tm)),
        object_json(fm, fs, fs.len() as int, tm) matches Ok(members) ==> forall|i: int|
            0 <= i < fs.len() && (forall|l: int|
                i < l < fs.len() ==> object_field_column(fm, #[trigger] fs@[l]) != object_field_column(fm, fs@[i]))
                ==> members.contains(
                (object_field_column(fm, #[trigger] fs@[i]), argument_json(
                    fs@[i].info->InputObjectField_field_type@,
                    fs@[i].value,
                    tm,
                )->Ok_0),
            ),
{
    lemma_object_fields(fm, fs, fs.len() as int, tm);
}

proof fn lemma_list_failure_persists(
    elem: QualifiedTypeReferenceView,
    vs: Vec<InputValue>,
    tm: Seq<(Qualified<CustomTypeName>, TypeMapping)>,
    k: int,
    n: int,
)
    requires
        1 <= k <= n <= vs.len(),
        list_json(elem, vs, k, tm) is Err,
    ensures
        list_json(elem, vs, n, tm) == list_json(elem, vs, k, tm),
    decreases n - k,
{
    if k < n {
        lemma_list_failure_persists(elem, vs, tm, k, n - 1);
    }
}

proof fn lemma_object_failure_persists(
    fm: Seq<(FieldName, FieldMapping)>,
    fs: Vec<InputField>,
    tm: Seq<(Qualified<CustomTypeName>, TypeMapping)>,
    k: int,
    n: int,
)
    requires
        1 <= k <= n <= fs.len(),
        object_json(fm, fs, k, tm) is Err,
    ensures
        object_json(fm, fs, n, tm) == object_json(fm, fs, k, tm),
    decreases n - k,
{
    if k < n {
        lemma_object_failure_persists(fm, fs, tm, k, n - 1);
    }
}

/// The JSON value of an argument value of the type, as the data connector
/// takes it.
pub fn map_argument_value_to_ndc_type(
    argument_name: &String,
    value_type: &QualifiedTypeReference,
    value: &InputValue,
    type_mappings: &Vec<(Qualified<CustomTypeName>, TypeMapping)>,
) -> (r: Result<JsonValue, Error>)
    ensures
        match argument_json(value_type@, *value, type_mappings@) {
            Ok(j) => r matches Ok(v) && v@ == j,
            Err(f) => r matches Err(e) && argument_error(e, argument_name@, f),
        },
    decreases value, 1int,
{
    if value.is_null() {
        return Ok(JsonValue::Null);
    }
    match &value_type.underlying_type {
        QualifiedBaseType::List(element_type) => {
            let values = value.as_list()?;
            let elem: &QualifiedTypeReference = element_type;
            let out = map_list(argument_name, elem, values, type_mappings)?;
            let r = JsonValue::Array(out);
            proof {
                match r@ {
                    JsonView::Array(s) => {
                        assert(s =~= out@.map_values(|j: JsonValue| j@));
                    },
                    _ => {},
                }
            }
            Ok(r)
        },
        QualifiedBaseType::Named(QualifiedTypeName::Inbuilt(InbuiltType::String)) => {
            Ok(JsonValue::String(value.as_string()?.clone()))
        },
        QualifiedBaseType::Named(QualifiedTypeName::Inbuilt(InbuiltType::Float)) => {
            Ok(JsonValue::from_float_bits(value.as_float()?))
        },
        QualifiedBaseType::Named(QualifiedTypeName::Inbuilt(InbuiltType::Int)) => {
            Ok(JsonValue::from_i64(value.as_int_i64()?))
        },
        QualifiedBaseType::Named(QualifiedTypeName::Inbuilt(InbuiltType::ID)) => {
            Ok(JsonValue::String(value.as_id()?.clone()))
        },
        QualifiedBaseType::Named(QualifiedTypeName::Inbuilt(InbuiltType::Boolean)) => {
            Ok(JsonValue::Bool(value.as_boolean()?))
        },
        QualifiedBaseType::Named(QualifiedTypeName::Custom(custom_type_name)) => {
            let index = match find_key(type_mappings, custom_type_name) {
                Some(index) => index,
                None => {
                    return Err(
                        Error::developer(
                            InternalDeveloperError::TypeMappingNotFoundForArgument {
                                typename: custom_type_name.duplicate(),
                                argument_name: argument_name.clone(),
                            },
                        ),
                    );
                },
            };
            proof {
                lemma_first_key_unique(type_mappings@, custom_type_name@, index as int);
            }
            let field_mappings = match &type_mappings[index].1 {
                TypeMapping::Object { field_mappings } => field_mappings,
            };
            let fields = value.as_object()?;
            let members = map_object(argument_name, field_mappings, fields, type_mappings)?;
            let r = JsonValue::Object(members);
            proof {
                match r@ {
                    JsonView::Object(s) => {
                        assert(s =~= entries_view(members@));
                    },
                    _ => {},
                }
            }
            Ok(r)
        },
    }
}

/// The JSON values of the elements of a list of the type.
fn map_list(
    argument_name: &String,
    elem: &QualifiedTypeReference,
    values: &Vec<InputValue>,
    type_mappings: &Vec<(Qualified<CustomTypeName>, TypeMapping)>,
) -> (r: Result<Vec<JsonValue>, Error>)
    ensures
        match list_json(elem@, *values, values.len() as int, type_mappings@) {
            Ok(js) => r matches Ok(out) && out@.map_values(|j: JsonValue| j@) == js,
            Err(f) => r matches Err(e) && argument_error(e, argument_name@, f),
        },
    decreases values, 0int,
{
    let mut out: Vec<JsonValue> = Vec::new();
    assert(out@.map_values(|j: JsonValue| j@) =~= Seq::<JsonView>::empty());
    let mut i: usize = 0;
    while i < values.len()
        invariant
            i <= values.len(),
            list_json(elem@, *values, i as int, type_mappings@) == Ok::<Seq<JsonView>, ArgumentFailure>(
                out@.map_values(|j: JsonValue| j@),
            ),
        decreases values.len() - i,
    {
        assert(decreases_to!(values => values[i as int]));
        let j = match map_argument_value_to_ndc_type(argument_name, elem, &values[i], type_mappings) {
            Ok(j) => j,
            Err(e) => {
                proof {
                    lemma_list_failure_persists(elem@, *values, type_mappings@, i + 1, values.len() as int);
                }
                return Err(e);
            },
        };
        let ghost before = out@;
        out.push(j);
        assert(out@.map_values(|j: JsonValue| j@) =~= before.map_values(|j: JsonValue| j@).push(j@));
        i = i + 1;
    }
    Ok(out)
}

/// The JSON members of the fields of an object, each under the column its
/// field maps to.
fn map_object(
    argument_name: &String,
    field_mappings: &Vec<(FieldName, FieldMapping)>,
    fields: &Vec<InputField>,
    type_mappings: &Vec<(Qualified<CustomTypeName>, TypeMapping)>,
) -> (r: Result<Vec<(String, JsonValue)>, Error>)
    ensures
        match object_json(field_mappings@, *fields, fields.len() as int, type_mappings@) {
            Ok(ms) => r matches Ok(out) && entries_view(out@) == ms,
            Err(f) => r matches Err(e) && argument_error(e, argument_name@, f),
        },
    decreases fields, 0int,
{
    let mut out: Vec<(String, JsonValue)> = Vec::new();
    assert(entries_view(out@) =~= Seq::<(Seq<char>, JsonView)>::empty());
    let mut i: usize = 0;
    while i < fields.len()
        invariant
            i <= fields.len(),
            object_json(field_mappings@, *fields, i as int, type_mappings@) == Ok::<
                Seq<(Seq<char>, JsonView)>,
                ArgumentFailure,
            >(entries_view(out@)),
            entries_distinct(entries_view(out@)),
        decreases fields.len() - i,
    {
        assert(decreases_to!(fields => fields[i as int]));
        let field = &fields[i];
        let (field_name, field_type) = match &field.info {
            InputAnnotation::InputObjectField { field_name, field_type } => (field_name, field_type),
            _ => {
                proof {
                    lemma_object_failure_persists(
                        field_mappings@,
                        *fields,
                        type_mappings@,
                        i + 1,
                        fields.len() as int,
                    );
                }
                return Err(Error::engine(InternalEngineError::UnexpectedAnnotation { annotation: crate::schema::normalized::Annotation::Input(fields[i].info.duplicate()) }));
            },
        };
        let index = match find_key(field_mappings, field_name) {
            Some(index) => index,
            None => {
                proof {
                    lemma_object_failure_persists(
                        field_mappings@,
                        *fields,
                        type_mappings@,
                        i + 1,
                        fields.len() as int,
                    );
                }
                let description = String::from_str("unable to find mapping for field ").concat(
                    field_name.0.as_str(),
                );
                return Err(Error::engine(InternalEngineError::InternalGeneric { description }));
            },
        };
        proof {
            lemma_first_key_unique(field_mappings@, field_name@, index as int);
        }
        let v = match map_argument_value_to_ndc_type(argument_name, field_type, &field.value, type_mappings) {
            Ok(v) => v,
            Err(e) => {
                proof {
                    lemma_object_failure_persists(
                        field_mappings@,
                        *fields,
                        type_mappings@,
                        i + 1,
                        fields.len() as int,
                    );
                }
                return Err(e);
            },
        };
        set_entry(&mut out, field_mappings[index].1.column.clone(), v);
        i = i + 1;
    }
    Ok(out)
}

} // verus!
