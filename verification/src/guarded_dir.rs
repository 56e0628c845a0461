use vstd::prelude::*;

use crate::errors::UtilsError;

verus! {

/// The rule a freshly inspected directory must satisfy: its metadata
/// describes a directory, its owner is exactly the requested one, and every
/// requested permission bit is present in its observed mode (extra bits
/// beyond the requested set are tolerated).
pub open spec fn dir_attributes_ok(
    is_dir: bool,
    st_uid: u32,
    st_mode: u32,
    owner: u32,
    mode: u32,
) -> bool {
    is_dir && st_uid == owner && (st_mode & mode) == mode
}

/// The verification step of directory creation with enforced attributes:
/// judge the metadata re-read from disk after the creation call (the
/// attributes implied by the creation call itself are never trusted, since
/// the path may have pre-existed or been altered concurrently).
///
/// `is_dir`, `st_uid` and `st_mode` describe the on-disk metadata observed
/// at `path`; `owner` and `mode` are the requested attributes.
pub fn verify_dir_metadata(
    path: &str,
    is_dir: bool,
    st_uid: u32,
    st_mode: u32,
    owner: u32,
    mode: u32,
) -> (r: Result<(), UtilsError>)
    ensures
        r is Ok <==> dir_attributes_ok(is_dir, st_uid, st_mode, owner, mode),
        r matches Err(e) ==> (e matches UtilsError::DirectoryAttributeMismatch(q) && q@
            == path@),
{
    if is_dir && st_uid == owner && (st_mode & mode) == mode {
        Ok(())
    } else {
        Err(UtilsError::DirectoryAttributeMismatch(path.to_owned()))
    }
}

} // verus!
