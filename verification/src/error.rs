//! The errors of the remapping engine.

use vstd::prelude::*;

verus! {

/// `std::io::Error`, carried as it comes: nothing is said of what it holds.
#[verifier::external_type_specification]
#[verifier::external_body]
pub struct ExIoError(std::io::Error);

/// `nix::errno::Errno`, carried as it comes: nothing is said of what it holds.
#[verifier::external_type_specification]
#[verifier::external_body]
pub struct ExErrno(nix::errno::Errno);

/// What can go wrong while remapping.
#[derive(Debug)]
pub enum RustUtilsError {
    /// Reading from the filesystem failed.
    Io(std::io::Error),
    /// An operation was not permitted.
    Permission(String),
    /// The base directory is missing or is no directory.
    DirectoryNotFound(String),
    /// The configuration is not valid.
    InvalidRange(String),
    /// The ownership of an entry could not be changed.
    RemapFailed(String),
    /// A system call failed.
    System(nix::errno::Errno),
    /// The arguments do not fit together.
    InvalidArguments(String),
    /// An operation failed.
    OperationFailed(String),
}

impl RustUtilsError {
    /// The fixed text that opens the message of each kind of error.
    pub open spec fn prefix(&self) -> Seq<char> {
        match self {
            RustUtilsError::Io(_) => "IO error: "@,
            RustUtilsError::Permission(_) => "Permission denied: "@,
            RustUtilsError::DirectoryNotFound(_) => "Directory not found: "@,
            RustUtilsError::InvalidRange(_) => "Invalid UID/GID range: "@,
            RustUtilsError::RemapFailed(_) => "Remapping failed: "@,
            RustUtilsError::System(_) => "System error: "@,
            RustUtilsError::InvalidArguments(_) => "Invalid arguments: "@,
            RustUtilsError::OperationFailed(_) => "Operation failed: "@,
        }
    }

    /// The detail that the error carries as text, where it carries text.
    pub open spec fn detail(&self) -> Option<Seq<char>> {
        match self {
            RustUtilsError::Io(_) => None,
            RustUtilsError::System(_) => None,
            RustUtilsError::Permission(m) => Some(m@),
            RustUtilsError::DirectoryNotFound(m) => Some(m@),
            RustUtilsError::InvalidRange(m) => Some(m@),
            RustUtilsError::RemapFailed(m) => Some(m@),
            RustUtilsError::InvalidArguments(m) => Some(m@),
            RustUtilsError::OperationFailed(m) => Some(m@),
        }
    }

    /// The message of the error: its prefix, then its detail. For an I/O or a
    /// system error the detail is whatever the wrapped error prints.
    pub fn to_string(&self) -> (text: String)
        ensures
            self.prefix().is_prefix_of(text@),
            self.detail() matches Some(d) ==> text@ == self.prefix() + d,
    {
        match self {
            RustUtilsError::Io(e) => prefixed("IO error: ", e.to_string().as_str()),
            RustUtilsError::Permission(m) => prefixed("Permission denied: ", m.as_str()),
            RustUtilsError::DirectoryNotFound(m) => prefixed("Directory not found: ", m.as_str()),
            RustUtilsError::InvalidRange(m) => prefixed("Invalid UID/GID range: ", m.as_str()),
            RustUtilsError::RemapFailed(m) => prefixed("Remapping failed: ", m.as_str()),
            RustUtilsError::System(e) => prefixed("System error: ", e.to_string().as_str()),
            RustUtilsError::InvalidArguments(m) => prefixed("Invalid arguments: ", m.as_str()),
            RustUtilsError::OperationFailed(m) => prefixed("Operation failed: ", m.as_str()),
        }
    }
}

/// `prefix` followed by `detail`.
pub fn prefixed(prefix: &str, detail: &str) -> (text: String)
    ensures
        text@ == prefix@ + detail@,
        prefix@.is_prefix_of(text@),
{
    let mut text = String::from_str(prefix);
    text.append(detail);
    text
}

impl From<std::io::Error> for RustUtilsError {
    fn from(e: std::io::Error) -> (r: RustUtilsError) {
        RustUtilsError::Io(e)
    }
}

impl vstd::std_specs::convert::FromSpecImpl<std::io::Error> for RustUtilsError {
    open spec fn obeys_from_spec() -> bool {
        true
    }

    open spec fn from_spec(e: std::io::Error) -> RustUtilsError {
        RustUtilsError::Io(e)
    }
}

impl From<nix::errno::Errno> for RustUtilsError {
    fn from(e: nix::errno::Errno) -> (r: RustUtilsError) {
        RustUtilsError::System(e)
    }
}

impl vstd::std_specs::convert::FromSpecImpl<nix::errno::Errno> for RustUtilsError {
    open spec fn obeys_from_spec() -> bool {
        true
    }

    open spec fn from_spec(e: nix::errno::Errno) -> RustUtilsError {
        RustUtilsError::System(e)
    }
}

} // verus!
