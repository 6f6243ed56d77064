//! Errors of IR generation and query planning.

use vstd::prelude::*;

use crate::metadata::resolved::subgraph::Qualified;
use crate::open_dds::types::CustomTypeName;
use crate::schema::graphql::OutputAnnotationView;
use crate::schema::normalized::{Annotation, AnnotationView, InputAnnotationView};

verus! {

/// The error reported for an argument with an annotation it should not have.
pub open spec fn unexpected_annotation(e: Error, a: InputAnnotationView) -> bool {
    e matches Error::InternalError(InternalError::Engine(InternalEngineError::UnexpectedAnnotation { annotation }))
        && annotation@ == AnnotationView::Input(a)
}

/// The error reported for a field with an output annotation it should not
/// have.
pub open spec fn unexpected_output_annotation(e: Error, a: OutputAnnotationView) -> bool {
    e matches Error::InternalError(InternalError::Engine(InternalEngineError::UnexpectedAnnotation { annotation }))
        && annotation@ == AnnotationView::Output(a)
}

/// Errors caused by a state the engine should never reach.
#[derive(Debug)]
pub enum InternalEngineError {
    InternalGeneric { description: String },
    FilterPermissionAnnotationNotFound,
    SubscriptionsNotSupported,
    UnexpectedAnnotation { annotation: Annotation },
}

/// Errors caused by metadata or data that do not fit together.
#[derive(Debug)]
pub enum InternalDeveloperError {
    BadGDCResponse { summary: String },
    MissingSessionVariable { session_variable: String },
    VariableTypeCast { expected: String, found: String },
    VariableArrayTypeCast,
    TypeMappingNotFoundForArgument { typename: Qualified<CustomTypeName>, argument_name: String },
    NoArgumentSource { field_name: String, argument_name: String },
    GlobalIDTypenameMappingNotFound { typename: String },
    NoSourceDataConnector { typename: String, field_name: String },
}

#[derive(Debug)]
pub enum InternalError {
    Developer(InternalDeveloperError),
    Engine(InternalEngineError),
}

/// An error of IR generation, planning or execution.
#[derive(Debug)]
pub enum Error {
    InternalError(InternalError),
    /// A value of another kind than the schema asks for.
    UnexpectedValue { expected: String },
    /// A selection set whose type is not known.
    NoTypenameFound,
    /// A field call without an argument that the field must have.
    ArgumentNotFound { argument_name: String },
    /// A `__type` request for a name that is no GraphQL name.
    TypeFieldInvalidGraphQlName { name: String },
    /// A global ID that is no base64 text, with the decoder's message.
    ErrorInDecodingGlobalId { encoded_value: String, decoding_error: String },
}

impl Error {
    pub fn engine(e: InternalEngineError) -> (r: Error)
        ensures
            r == Error::InternalError(InternalError::Engine(e)),
    {
        Error::InternalError(InternalError::Engine(e))
    }

    pub fn developer(e: InternalDeveloperError) -> (r: Error)
        ensures
            r == Error::InternalError(InternalError::Developer(e)),
    {
        Error::InternalError(InternalError::Developer(e))
    }
}

} // verus!
