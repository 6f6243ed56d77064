//! Reading the answer of a data connector.

use vstd::prelude::*;
use vstd::string::*;

use crate::open_dds::ndc_client::models::RowSet;
use crate::schema::operations::error::{Error, InternalDeveloperError, InternalError};

verus! {

/// The one row set of an answer: the first; an error where there is none.
pub fn get_single_rowset(rows_sets: Vec<RowSet>) -> (r: Result<RowSet, Error>)
    ensures
        if rows_sets.len() > 0 {
            r == Ok::<RowSet, Error>(rows_sets@[0])
        } else {
            r matches Err(Error::InternalError(
                InternalError::Developer(InternalDeveloperError::BadGDCResponse { summary }),
            )) && summary@ == "missing rowset"@
        },
{
    let mut rows_sets = rows_sets;
    if rows_sets.len() == 0 {
        Err(
            Error::developer(
                InternalDeveloperError::BadGDCResponse { summary: String::from_str("missing rowset") },
            ),
        )
    } else {
        Ok(rows_sets.remove(0))
    }
}

} // verus!
