//! The GraphQL response the engine sends.

use vstd::prelude::*;
use vstd::string::*;

use crate::json::JsonValue;

verus! {

/// The HTTP status of a response that was handled.
pub const STATUS_OK: u16 = 200;

/// Details of an error.
#[derive(Debug, PartialEq, Eq)]
pub struct Extensions {
    pub details: JsonValue,
}

/// An error in a GraphQL response.
#[derive(Debug, PartialEq, Eq)]
pub struct GraphQLError {
    pub message: String,
    pub path: Option<Vec<String>>,
    pub extensions: Option<Extensions>,
}

/// A GraphQL response: its HTTP status, the value of each root field under
/// its alias, and the errors.
#[derive(Debug, PartialEq, Eq)]
pub struct Response {
    pub status_code: u16,
    pub data: Option<Vec<(String, JsonValue)>>,
    pub errors: Option<Vec<GraphQLError>>,
}

impl Response {
    /// A response with data and no error.
    pub fn ok(data: Vec<(String, JsonValue)>) -> (r: Response)
        ensures
            r == (Response { status_code: STATUS_OK, data: Some(data), errors: None }),
    {
        Response { status_code: STATUS_OK, data: Some(data), errors: None }
    }

    /// A response with data and errors.
    pub fn partial(data: Vec<(String, JsonValue)>, errors: Vec<GraphQLError>) -> (r: Response)
        ensures
            r == (Response { status_code: STATUS_OK, data: Some(data), errors: Some(errors) }),
    {
        Response { status_code: STATUS_OK, data: Some(data), errors: Some(errors) }
    }

    /// A response with a status and one error.
    pub fn error_with_status(status_code: u16, error: GraphQLError) -> (r: Response)
        ensures
            r.status_code == status_code,
            r.data is None,
            r matches Response { errors: Some(es), .. } && es@ == seq![error],
    {
        Response { status_code, data: None, errors: Some(vec![error]) }
    }

    /// A response with a status and one error with the message.
    pub fn error_message_with_status(status_code: u16, message: String) -> (r: Response)
        ensures
            r.status_code == status_code,
            r.data is None,
            r matches Response { errors: Some(es), .. } && es@ == seq![
                GraphQLError { message, path: None, extensions: None },
            ],
    {
        Response {
            status_code,
            data: None,
            errors: Some(vec![GraphQLError { message, path: None, extensions: None }]),
        }
    }

    /// A response with one error.
    pub fn error(error: GraphQLError) -> (r: Response)
        ensures
            r.status_code == STATUS_OK,
            r.data is None,
            r matches Response { errors: Some(es), .. } && es@ == seq![error],
    {
        Response { status_code: STATUS_OK, data: None, errors: Some(vec![error]) }
    }

    /// A response with a status and errors.
    pub fn errors_with_status(status_code: u16, errors: Vec<GraphQLError>) -> (r: Response)
        ensures
            r == (Response { status_code, data: None, errors: Some(errors) }),
    {
        Response { status_code, data: None, errors: Some(errors) }
    }

    /// A response with errors.
    pub fn errors(errors: Vec<GraphQLError>) -> (r: Response)
        ensures
            r == (Response { status_code: STATUS_OK, data: None, errors: Some(errors) }),
    {
        Response { status_code: STATUS_OK, data: None, errors: Some(errors) }
    }

    /// Whether the response holds errors.
    pub fn does_contains_error(&self) -> (r: bool)
        ensures
            r == (self.errors is Some),
    {
        self.errors.is_some()
    }
}

/// The greeting for a name.
pub fn greeting(name: &str) -> (r: String)
    ensures
        r@ == "Hello, "@ + name@ + "!"@,
{
    String::from_str("Hello, ").concat(name).concat("!")
}

} // verus!
