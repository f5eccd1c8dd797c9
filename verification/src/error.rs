//! The failures a request can end in.

use vstd::prelude::*;

verus! {

/// The machine-readable class of a failure. Callers branch on this, not on the message.
#[derive(Clone, Copy, Debug, PartialEq, Eq, Structural)]
pub enum ErrorKind {
    /// The caller's input is malformed or out of range.
    InvalidArgument,
    /// The request names an id that the store does not hold.
    NotFound,
    /// A create names an id that the store already holds.
    AlreadyExists,
}

/// Why a request was refused. Every failure is final: the service never retries.
#[derive(Clone, Copy, Debug, PartialEq, Eq, Structural)]
pub enum ServiceError {
    /// The request carries no student record.
    MissingStudent,
    /// The name is empty or white space only.
    BlankName,
    /// The email is empty or white space only.
    BlankEmail,
    /// The age is below 0 or above 150.
    AgeOutOfRange,
    /// The grade point average is not a number from 0.0 to 4.0.
    GpaOutOfRange,
    /// The id is empty or white space only.
    BlankId,
    /// No record with the id is stored.
    NotFound,
    /// A record with the id is stored already.
    AlreadyExists,
}

impl ServiceError {
    /// The class of this failure.
    pub open spec fn spec_kind(self) -> ErrorKind {
        match self {
            ServiceError::NotFound => ErrorKind::NotFound,
            ServiceError::AlreadyExists => ErrorKind::AlreadyExists,
            _ => ErrorKind::InvalidArgument,
        }
    }

    /// The human-readable text of this failure.
    pub open spec fn spec_message(self) -> Seq<char> {
        match self {
            ServiceError::MissingStudent => "Student record is required"@,
            ServiceError::BlankName => "Student name cannot be empty"@,
            ServiceError::BlankEmail => "Student email cannot be empty"@,
            ServiceError::AgeOutOfRange => "Student age must be between 0 and 150"@,
            ServiceError::GpaOutOfRange => "Student GPA must be between 0.0 and 4.0"@,
            ServiceError::BlankId => "Student ID cannot be empty"@,
            ServiceError::NotFound => "Student not found"@,
            ServiceError::AlreadyExists => "Student with this ID already exists"@,
        }
    }

    /// The class of this failure.
    #[verifier::when_used_as_spec(spec_kind)]
    pub fn kind(self) -> (kind: ErrorKind)
        ensures
            kind == self.spec_kind(),
    {
        match self {
            ServiceError::NotFound => ErrorKind::NotFound,
            ServiceError::AlreadyExists => ErrorKind::AlreadyExists,
            _ => ErrorKind::InvalidArgument,
        }
    }

    /// The human-readable text of this failure.
    pub fn message(self) -> (text: &'static str)
        ensures
            text@ == self.spec_message(),
    {
        match self {
            ServiceError::MissingStudent => "Student record is required",
            ServiceError::BlankName => "Student name cannot be empty",
            ServiceError::BlankEmail => "Student email cannot be empty",
            ServiceError::AgeOutOfRange => "Student age must be between 0 and 150",
            ServiceError::GpaOutOfRange => "Student GPA must be between 0.0 and 4.0",
            ServiceError::BlankId => "Student ID cannot be empty",
            ServiceError::NotFound => "Student not found",
            ServiceError::AlreadyExists => "Student with this ID already exists",
        }
    }
}

} // verus!
