//! The failures of the operations.

use vstd::prelude::*;

verus! {

/// The families of failure.
#[derive(Clone, Copy, Debug, PartialEq, Eq, Structural)]
pub enum ErrorKind {
    /// A record was refused before anything was written.
    Validation,
    /// A removal would have broken a rule that ties records together.
    Integrity,
    /// The store stayed busy through every attempt.
    Transient,
}

/// Why an operation did not take place. No variant carries credential
/// material.
#[derive(Clone, Copy, Debug, PartialEq, Eq, Structural)]
pub enum Error {
    /// An account was saved with a blank email.
    EmptyUserEmail,
    /// An invitation was saved with a blank email.
    EmptyInvitationEmail,
    /// The account is the only owner left of an organization.
    LastOwner,
    /// Stamping the revision date failed on every attempt.
    RevisionNotUpdated,
}

impl Error {
    pub open spec fn kind_of(self) -> ErrorKind {
        match self {
            Error::EmptyUserEmail => ErrorKind::Validation,
            Error::EmptyInvitationEmail => ErrorKind::Validation,
            Error::LastOwner => ErrorKind::Integrity,
            Error::RevisionNotUpdated => ErrorKind::Transient,
        }
    }

    pub fn kind(&self) -> (k: ErrorKind)
        ensures
            k == self.kind_of(),
    {
        match self {
            Error::EmptyUserEmail => ErrorKind::Validation,
            Error::EmptyInvitationEmail => ErrorKind::Validation,
            Error::LastOwner => ErrorKind::Integrity,
            Error::RevisionNotUpdated => ErrorKind::Transient,
        }
    }

    pub open spec fn message_of(self) -> Seq<char> {
        match self {
            Error::EmptyUserEmail => "User email can't be empty"@,
            Error::EmptyInvitationEmail => "Invitation email can't be empty"@,
            Error::LastOwner => "Can't delete last owner"@,
            Error::RevisionNotUpdated => "Error updating revision date for all users"@,
        }
    }

    /// The words shown for this failure.
    pub fn message(&self) -> (text: &'static str)
        ensures
            text@ == self.message_of(),
    {
        match self {
            Error::EmptyUserEmail => "User email can't be empty",
            Error::EmptyInvitationEmail => "Invitation email can't be empty",
            Error::LastOwner => "Can't delete last owner",
            Error::RevisionNotUpdated => "Error updating revision date for all users",
        }
    }
}

} // verus!
