use vstd::prelude::*;

verus! {

/// Which rule a caller-supplied value broke.
#[derive(Debug, Clone, Copy, PartialEq, Eq, Structural)]
pub enum Invalid {
    /// The name was empty.
    EmptyName,
    /// The email held no `@`.
    MissingAt,
    /// The age was above the largest one accepted.
    AgeOutOfRange,
}

/// The outcomes by which an operation on users or on the store fails.
#[derive(Debug, Clone, Copy, PartialEq, Eq, Structural)]
pub enum UserError {
    /// Caller-supplied data broke a rule; nothing was changed.
    Validation(Invalid),
    /// No record has the identifier given.
    NotFound(u32),
}

impl UserError {
    /// A sentence that says what went wrong.
    pub fn message(&self) -> (r: &'static str) {
        match self {
            UserError::Validation(Invalid::EmptyName) => "Name cannot be empty",
            UserError::Validation(Invalid::MissingAt) => "Invalid email format",
            UserError::Validation(Invalid::AgeOutOfRange) => "Age must be realistic",
            UserError::NotFound(_) => "User not found",
        }
    }

    /// Whether this is a validation failure.
    pub fn is_validation(&self) -> (r: bool)
        ensures
            r == (*self is Validation),
    {
        match self {
            UserError::Validation(_) => true,
            UserError::NotFound(_) => false,
        }
    }
}

} // verus!
