//! The session variables of a request.

use vstd::prelude::*;

use crate::json::JsonValue;
use crate::keyed::{find_key, first_key, has_key, is_first_key, lemma_first_key_unique};
use crate::open_dds::names::SessionVariable;

verus! {

/// The value of a session variable: its text, with what the text reads as
/// where it is read as a 32-bit floating-point number. A session variable
/// arrives as text; it is read as a number where a comparison asks for one.
#[derive(Debug, PartialEq, Eq)]
pub struct SessionVariableValue {
    pub text: String,
    /// The JSON number the text reads as when parsed as a 32-bit float (null
    /// where that float is not finite); none where it is no such number.
    pub float_reading: Option<JsonValue>,
}

/// The session variables of a request, each with its value.
#[derive(Debug, PartialEq, Eq)]
pub struct SessionVariables(pub Vec<(SessionVariable, SessionVariableValue)>);

impl SessionVariables {
    /// The value of a session variable, where it is set.
    pub fn get(&self, name: &SessionVariable) -> (r: Option<&SessionVariableValue>)
        ensures
            match r {
                Some(v) => has_key(self.0@, name@) && *v == self.0@[first_key(self.0@, name@)].1,
                None => !has_key(self.0@, name@),
            },
    {
        match find_key(&self.0, name) {
            Some(i) => {
                proof {
                    lemma_first_key_unique(self.0@, name@, i as int);
                }
                Some(&self.0[i].1)
            },
            None => None,
        }
    }
}

} // verus!
