use vstd::prelude::*;

use crate::errors::UtilsError;

verus! {

/// The filesystem-type magic number by which the kernel identifies procfs.
pub const PROC_SUPER_MAGIC: i64 = 0x9fa0;

/// The decision step of the procfs check: judge the filesystem-type magic
/// reported for an already-open descriptor of `path`, and accept it only if
/// it is procfs's own.
///
/// The caller must query the type from the descriptor it already holds,
/// never by resolving the path by name a second time: re-resolving reopens
/// the window in which an attacker can substitute a mount over the path.
pub fn verify_procfs_type(path: &str, fs_type: i64) -> (r: Result<(), UtilsError>)
    ensures
        r is Ok <==> fs_type == PROC_SUPER_MAGIC,
        r matches Err(e) ==> (e matches UtilsError::NotProcfs(q) && q@ == path@),
{
    if fs_type == PROC_SUPER_MAGIC {
        Ok(())
    } else {
        Err(UtilsError::NotProcfs(path.to_owned()))
    }
}

} // verus!
