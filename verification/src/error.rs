//! The ways in which resolving a profile or reaching a host can fail.

use vstd::prelude::*;

verus! {

/// `std::io::Error`, carried through as it is: nothing is known of what one
/// holds.
#[verifier::external_type_specification]
#[verifier::external_body]
pub struct ExIoError(std::io::Error);

/// Why a profile could not be resolved, or its host not reached.
#[derive(Debug)]
pub enum Error {
    /// No profile matches the host that was asked for. The parser never
    /// reports this: it is for callers that want to treat a profile made of
    /// defaults alone as a failure.
    HostNotFound,
    /// A home directory was needed and there is none.
    NoHome,
    /// Resolving the host's address gave no candidate.
    NotResolvable,
    /// A file could not be read, a path could not be written as a string, or
    /// the transport failed.
    Io(std::io::Error),
}

/// Why resolving a profile fails, as the contracts name it.
pub enum Failure {
    /// A path began with `~/` and there is no home directory.
    NoHome,
    /// A path began with `~/` and, joined to the home directory, cannot be
    /// written as a string.
    Unrepresentable,
}

impl Error {
    /// Whether this error is the one that the contracts name `failure`.
    pub open spec fn reports(&self, failure: Failure) -> bool {
        match failure {
            Failure::NoHome => self is NoHome,
            Failure::Unrepresentable => self is Io,
        }
    }

    /// The error's description, for people.
    pub fn message(&self) -> (text: String)
        ensures
            self is HostNotFound ==> text@ == "Host not found"@,
            self is NoHome ==> text@ == "No home directory"@,
            self is NotResolvable ==> text@ == "Cannot resolve the address"@,
    {
        match self {
            Error::HostNotFound => "Host not found".to_owned(),
            Error::NoHome => "No home directory".to_owned(),
            Error::NotResolvable => "Cannot resolve the address".to_owned(),
            Error::Io(cause) => describe(cause),
        }
    }
}

/// The text that `std::io::Error` displays of itself. Nothing is claimed of
/// it.
#[verifier::external_body]
fn describe(cause: &std::io::Error) -> String {
    format!("{}", cause)
}

/// `std::io::Error::new`, with the kind `Other` and a fixed message: the
/// error reported where a joined path is not valid Unicode. Nothing is
/// claimed of the value.
#[verifier::external_body]
pub(crate) fn unrepresentable_path() -> std::io::Error {
    std::io::Error::new(std::io::ErrorKind::Other, "Failed to convert home directory to string")
}

} // verus!
