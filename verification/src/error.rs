use vstd::prelude::*;

verus! {

/// Why an operation was refused. A refused operation changes nothing.
#[derive(Clone, Copy, Debug, PartialEq, Eq, Structural)]
pub enum CustomError {
    /// A debit, transfer or burn asks for more than the account holds.
    InsufficientFunds,
    /// The token type of this deployment has already been created.
    AlreadyExists,
    /// A supply or a balance would exceed the 64-bit range.
    Overflow,
    /// A burn asks for more than the supply.
    Underflow,
    /// The signer is not the authority that the operation requires.
    Unauthorized,
    /// A record that must already exist is absent.
    NotFound,
}

impl CustomError {
    /// The text shown for each error.
    pub open spec fn message_text(self) -> Seq<char> {
        match self {
            CustomError::InsufficientFunds => "Insufficient funds"@,
            CustomError::AlreadyExists => "Already exists"@,
            CustomError::Overflow => "Overflow"@,
            CustomError::Underflow => "Underflow"@,
            CustomError::Unauthorized => "Unauthorized"@,
            CustomError::NotFound => "Not found"@,
        }
    }

    /// A short human-readable description of the error.
    pub fn message(&self) -> (text: &'static str)
        ensures
            text@ == self.message_text(),
    {
        match self {
            CustomError::InsufficientFunds => "Insufficient funds",
            CustomError::AlreadyExists => "Already exists",
            CustomError::Overflow => "Overflow",
            CustomError::Underflow => "Underflow",
            CustomError::Unauthorized => "Unauthorized",
            CustomError::NotFound => "Not found",
        }
    }
}

} // verus!
