use vstd::prelude::*;

verus! {

/// Why a cast or a retract was refused.
#[derive(Clone, Copy, Debug, PartialEq, Eq, Structural)]
pub enum BadRequestError {
    /// The voter already holds the most votes allowed.
    TooManyVotes,
    /// The song, or the vote to retract, does not exist.
    NotFound,
    /// The store could not record the change.
    StoreFailure,
}

pub open spec fn message_of(e: BadRequestError) -> Seq<char> {
    match e {
        BadRequestError::TooManyVotes => "Too many votes"@,
        BadRequestError::NotFound => "Not found"@,
        BadRequestError::StoreFailure => "Store failure"@,
    }
}

impl BadRequestError {
    /// The text shown to the voter.
    pub fn message(&self) -> (r: String)
        ensures
            r@ == message_of(*self),
    {
        match self {
            BadRequestError::TooManyVotes => String::from_str("Too many votes"),
            BadRequestError::NotFound => String::from_str("Not found"),
            BadRequestError::StoreFailure => String::from_str("Store failure"),
        }
    }
}

} // verus!
