use vstd::prelude::*;

verus! {

/// Ownership of one disposable directory's lifetime.
///
/// A `TempDir` starts active, holding the directory's path, and transitions
/// to the removed state exactly once. The on-disk tree itself is created
/// before the value is constructed and deleted by whoever receives the path
/// back from `remove`; this type guarantees the lifecycle: the path can be
/// read only while active, and removal is idempotent.
pub struct TempDir {
    path: Option<String>,
}

impl TempDir {
    /// Whether the directory is still owned (not yet removed).
    pub closed spec fn active(&self) -> bool {
        self.path is Some
    }

    /// The owned directory path.
    pub closed spec fn dir_path(&self) -> Seq<char> {
        self.path->0@
    }

    /// Take ownership of `path`, whose directory the caller has just
    /// created on disk.
    pub fn new(path: String) -> (r: TempDir)
        ensures
            r.active(),
            r.dir_path() == path@,
    {
        TempDir { path: Some(path) }
    }

    /// Whether `path` may still be called.
    pub fn is_active(&self) -> (r: bool)
        ensures
            r == self.active(),
    {
        self.path.is_some()
    }

    /// The owned path. Calling this after removal is a lifecycle violation
    /// on the caller's side — a programming defect excluded by contract, not
    /// a runtime condition reported by value.
    pub fn path(&self) -> (r: &String)
        requires
            self.active(),
        ensures
            r@ == self.dir_path(),
    {
        match &self.path {
            Some(p) => p,
            None => vstd::pervasive::unreached(),
        }
    }

    /// Release ownership exactly once: on an active value, transition to the
    /// removed state and hand back the path whose on-disk tree the caller
    /// must now delete; on an already-removed value, do nothing.
    pub fn remove(&mut self) -> (r: Option<String>)
        ensures
            !final(self).active(),
            old(self).active() ==> (r matches Some(p) && p@ == old(self).dir_path()),
            !old(self).active() ==> r is None,
    {
        self.path.take()
    }
}

} // verus!
