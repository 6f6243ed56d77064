//! The arguments of a command as its data connector function or procedure
//! takes them.

use vstd::prelude::*;

use super::arguments::{argument_error, argument_json, map_argument_value_to_ndc_type};
use crate::json::JsonValue;
use crate::metadata::resolved::subgraph::Qualified;
use crate::metadata::resolved::types::TypeMapping;
use crate::open_dds::types::CustomTypeName;
use crate::schema::normalized::{InputAnnotation, InputField};
use crate::schema::operations::error::unexpected_annotation;
use crate::schema::operations::error::{
    Error, InternalDeveloperError, InternalEngineError, InternalError,
};

verus! {

/// The argument of a command field, under the name of the data connector's
/// argument it maps to.
pub fn build_ndc_command_arguments(
    command_field: &String,
    argument: &InputField,
    command_type_mappings: &Vec<(Qualified<CustomTypeName>, TypeMapping)>,
) -> (r: Result<Vec<(String, JsonValue)>, Error>)
    ensures
        match argument.info {
            InputAnnotation::CommandArgument { argument_type, ndc_func_proc_argument } => match ndc_func_proc_argument {
                None => r matches Err(Error::InternalError(
                    InternalError::Developer(InternalDeveloperError::NoArgumentSource {
                        field_name,
                        argument_name,
                    }),
                )) && field_name@ == command_field@ && argument_name@ == argument.name@,
                Some(n) => match argument_json(argument_type@, argument.value, command_type_mappings@) {
                    Ok(j) => r matches Ok(v) && v.len() == 1 && v[0].0@ == n@ && v[0].1@ == j,
                    Err(f) => r matches Err(e) && argument_error(e, argument.name@, f),
                },
            },
            _ => r matches Err(e) && unexpected_annotation(e, argument.info@),
        },
{
    match &argument.info {
        InputAnnotation::CommandArgument { argument_type, ndc_func_proc_argument } => {
            let ndc_argument = match ndc_func_proc_argument {
                Some(n) => n.clone(),
                None => {
                    return Err(
                        Error::developer(
                            InternalDeveloperError::NoArgumentSource {
                                field_name: command_field.clone(),
                                argument_name: argument.name.clone(),
                            },
                        ),
                    );
                },
            };
            let value = map_argument_value_to_ndc_type(
                &argument.name,
                argument_type,
                &argument.value,
                command_type_mappings,
            )?;
            let mut out: Vec<(String, JsonValue)> = Vec::new();
            out.push((ndc_argument, value));
            Ok(out)
        },
        _ => Err(Error::engine(InternalEngineError::UnexpectedAnnotation { annotation: crate::schema::normalized::Annotation::Input(argument.info.duplicate()) })),
    }
}

} // verus!
