use vstd::prelude::*;

use crate::errors::UtilsError;
use vstd::string::StrSliceExecFns;
use vstd::string::StringExecFns;

verus! {

/// An absolute path starts with the root separator.
pub open spec fn is_absolute_path(s: Seq<char>) -> bool {
    s.len() > 0 && s[0] == '/'
}

/// Conversions between the host's path space and a container's path space.
///
/// Paths are handled purely textually: no component is collapsed, no symlink
/// is resolved, so an untrusted fragment can never be reinterpreted outside
/// the tree a caller prefixes it with.
pub trait PathBufExt: View<V = Seq<char>> {
    /// Re-anchor an absolute host path inside a container by stripping
    /// exactly its leading root separator; a relative path has no absolute
    /// anchor to strip and is rejected.
    fn as_in_container(&self) -> (r: Result<String, UtilsError>)
        ensures
            is_absolute_path(self@) ==> (r matches Ok(c) && c@ == self@.skip(1)),
            !is_absolute_path(self@) ==> (r matches Err(UtilsError::InvalidPath(q))
                && q@ == self@),
    ;

    /// Prefix `self` to a fragment that is already absolute (or empty), by
    /// literal textual concatenation; a non-empty relative fragment is
    /// rejected rather than reinterpreted.
    fn join_absolute_path(&self, p: &str) -> (r: Result<String, UtilsError>)
        ensures
            (is_absolute_path(p@) || p@.len() == 0) ==> (r matches Ok(j)
                && j@ == self@ + p@),
            !(is_absolute_path(p@) || p@.len() == 0) ==> (r matches Err(
                UtilsError::InvalidPath(q),
            ) && q@ == p@),
    ;
}

impl PathBufExt for String {
    fn as_in_container(&self) -> (r: Result<String, UtilsError>) {
        let n = self.as_str().unicode_len();
        if n == 0 || self.as_str().get_char(0) != '/' {
            Err(UtilsError::InvalidPath(self.clone()))
        } else {
            let rest = self.as_str().substring_char(1, n);
            proof {
                assert(rest@ =~= self@.skip(1));
            }
            Ok(rest.to_owned())
        }
    }

    fn join_absolute_path(&self, p: &str) -> (r: Result<String, UtilsError>) {
        let m = p.unicode_len();
        if m != 0 && p.get_char(0) != '/' {
            Err(UtilsError::InvalidPath(p.to_owned()))
        } else {
            Ok(self.clone().concat(p))
        }
    }
}

/// The path of a container's cgroup: the configured path when one is given,
/// and a default derived from the container's id otherwise.
pub fn get_cgroup_path(cgroups_path: &Option<String>, container_id: &str) -> (r: String)
    ensures
        (*cgroups_path) matches Some(c) ==> r@ == c@,
        (*cgroups_path) is None ==> r@ == container_id@,
{
    match cgroups_path {
        Some(cpath) => cpath.clone(),
        None => container_id.to_owned(),
    }
}

/// Stripping the leading root separator from an absolute path yields a
/// relative path, provided the remainder does not itself begin with the
/// separator.
pub proof fn lemma_container_path_is_relative(p: Seq<char>)
    requires
        is_absolute_path(p),
        p.len() == 1 || p[1] != '/',
    ensures
        !is_absolute_path(p.skip(1)),
{
    if p.len() > 1 {
        assert(p.skip(1)[0] == p[1]);
    }
}

} // verus!
