//! The smallest interface to an interpreter: code in, text out.
use vstd::prelude::*;

verus! {

/// Something that runs code and answers with a text or an error.
pub trait Interpreter {
    fn interpret(&self, code: String) -> Result<String, String>;
}

/// An interpreter that answers with the code it was given.
pub struct FakeInterpreter;

impl Interpreter for FakeInterpreter {
    fn interpret(&self, code: String) -> (r: Result<String, String>)
        ensures
            r == Ok::<String, String>(code),
    {
        Ok(code)
    }
}

} // verus!
