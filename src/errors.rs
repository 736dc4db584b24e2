use vstd::prelude::*;

verus! {

/// The ways in which a shredding request is refused.
#[derive(Debug, Clone, Copy, PartialEq, Eq, Structural)]
pub enum CustomError {
    NotEnoughArgumentsErr,
    PathNonExistErr,
    InvalidPassesErr,
    InvalidThreadCountErr,
}

/// The one-line description of each error.
pub open spec fn error_message(e: CustomError) -> Seq<char> {
    match e {
        CustomError::NotEnoughArgumentsErr => "Not enough arguments provided"@,
        CustomError::PathNonExistErr => "Path doesn't exist"@,
        CustomError::InvalidPassesErr => "Passes value is invalid"@,
        CustomError::InvalidThreadCountErr => "Thread count value is invalid"@,
    }
}

impl CustomError {
    /// Describes the error in one line, for a diagnostic message.
    pub fn message(&self) -> (r: &'static str)
        ensures
            r@ == error_message(*self),
    {
        match self {
            CustomError::NotEnoughArgumentsErr => "Not enough arguments provided",
            CustomError::PathNonExistErr => "Path doesn't exist",
            CustomError::InvalidPassesErr => "Passes value is invalid",
            CustomError::InvalidThreadCountErr => "Thread count value is invalid",
        }
    }
}

} // verus!
