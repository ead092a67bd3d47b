//! Errors raised while generating code.

use vstd::prelude::*;

verus! {

/// An error raised by the code generator, carrying a human-readable message.
#[derive(Debug)]
pub struct CodegenError {
    pub message: String,
}

impl CodegenError {
    /// Builds an error whose message is exactly `msg`.
    pub fn new(msg: String) -> (e: CodegenError)
        ensures
            e.message@ == msg@,
    {
        CodegenError { message: msg }
    }
}

} // verus!
