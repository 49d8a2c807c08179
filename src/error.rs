use vstd::prelude::*;
use vstd::string::StringExecFns;

verus! {

/// Returned when a pool is asked for with parameters it cannot be built from,
/// such as zero workers.
#[derive(Debug)]
pub struct PoolCreationError {
    details: String,
}

impl PoolCreationError {
    /// The message carried by this error.
    pub closed spec fn message(&self) -> Seq<char> {
        self.details@
    }

    /// Makes an error that carries `message`.
    pub fn new(message: &str) -> (r: PoolCreationError)
        ensures
            r.message() == message@,
    {
        PoolCreationError { details: String::from_str(message) }
    }

    /// The message carried by this error, as text.
    pub fn details(&self) -> (r: &str)
        ensures
            r@ == self.message(),
    {
        self.details.as_str()
    }

    /// The message carried by this error, as an owned string.
    pub fn to_string(&self) -> (r: String)
        ensures
            r@ == self.message(),
    {
        self.details.clone()
    }
}

} // verus!
