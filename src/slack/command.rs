//! The command error of the older chat transport.
use vstd::prelude::*;
use crate::text::string_from;

verus! {

/// A command that the older transport could not understand.
#[derive(Debug)]
pub struct ParseError;

impl ParseError {
    /// The reason, for the operator.
    pub fn description(&self) -> (r: String)
        ensures
            r@ == "Could not parse user command"@,
    {
        string_from("Could not parse user command")
    }
}

} // verus!
