use vstd::prelude::*;

verus! {

/// A descriptive failure of a unit of work or of an outside operation.
#[derive(Debug)]
pub struct Failure {
    pub reason: String,
}

impl Failure {
    pub fn new(reason: String) -> (failure: Failure)
        ensures
            failure.reason == reason,
    {
        Failure { reason }
    }

    /// The text to show for this failure.
    pub fn message(&self) -> (text: &String)
        ensures
            *text == self.reason,
    {
        &self.reason
    }
}

} // verus!
