use vstd::prelude::*;

verus! {

/// The errors that the library's operations report.
#[derive(Clone, Copy, Debug, PartialEq, Eq, Structural)]
pub enum Error {
    /// A seek beyond the end of a device.
    InvalidSeek,
    /// A file that is not a loadable executable.
    InvalidExecutable,
    /// The caller does not own the resource.
    Permissions,
    /// Nothing to read.
    NoData,
    /// The caller's buffer cannot hold what there is to read.
    BufferTooSmall,
}

} // verus!
