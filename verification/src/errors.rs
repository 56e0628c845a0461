use vstd::prelude::*;

verus! {

/// The failure conditions of the crate's filesystem-safety primitives.
#[derive(Debug)]
pub enum UtilsError {
    /// A path had the wrong shape for the requested operation; carries the
    /// offending path's textual form.
    InvalidPath(String),
    /// Creating a directory failed; carries a description of the cause.
    DirectoryCreationFailed(String),
    /// A directory's on-disk metadata does not satisfy the requested owner
    /// and permission bits; carries the directory's path.
    DirectoryAttributeMismatch(String),
    /// A path could not be opened for inspection; carries the path.
    OpenFailed(String),
    /// An opened file is not backed by procfs; carries the path.
    NotProcfs(String),
}

} // verus!
