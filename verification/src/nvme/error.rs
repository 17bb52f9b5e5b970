//! The error type shared by every layer of the crate.

use vstd::prelude::*;

verus! {

/// `std::io::Error`, carried through as an opaque value: nothing in this
/// crate looks inside one, except to ask for its kind where an ioctl failed.
#[verifier::external_type_specification]
#[verifier::external_body]
pub struct ExIoError(std::io::Error);

/// Everything that can go wrong between discovery and a finished report.
#[derive(Debug)]
pub enum NvmeError {
    /// An operating-system call outside the ioctl path failed; `context`
    /// names the path or the operation.
    Io { context: String, source: std::io::Error },
    /// The admin ioctl on `device` failed for a reason other than permissions.
    Ioctl { device: String, source: std::io::Error },
    /// The admin ioctl on `device` was refused for lack of privileges.
    PermissionDenied { device: String },
    /// A buffer of fixed size had another length.
    UnexpectedSize { expected: usize, actual: usize },
    /// A length or value handed in by the caller makes no sense.
    InvalidData(String),
    /// Text or bytes could not be decoded.
    Parse(String),
    /// No controller could be read at start-up.
    NoReadableDevices,
    /// A failure of the surrounding machinery.
    Internal(String),
}

impl NvmeError {
    /// An `Io` error for the operation described by `context`.
    pub fn io_context(context: &str, source: std::io::Error) -> (error: Self)
        ensures
            error matches NvmeError::Io { context: c, source: s } && c@ == context@ && s == source,
    {
        NvmeError::Io { context: context.to_owned(), source }
    }

    /// An `Io` error for the file or directory at `path`.
    pub fn io_path(path: &str, source: std::io::Error) -> (error: Self)
        ensures
            error matches NvmeError::Io { context: c, source: s } && c@ == path@ && s == source,
    {
        NvmeError::Io { context: path.to_owned(), source }
    }
}

} // verus!
