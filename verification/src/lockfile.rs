//! Directory-based mutual exclusion between processes: the lock is "held"
//! while the lock directory exists. This module computes the paths involved;
//! the directory creation and removal that actually take and release the
//! lock are filesystem work and live with the caller.

use vstd::prelude::*;

verus! {

/// A cross-process mutex backed by atomic directory creation at `path`.
pub struct LockFile {
    path: String,
}

impl View for LockFile {
    type V = Seq<char>;

    /// A lock is identified by its directory path.
    closed spec fn view(&self) -> Seq<char> {
        self.path@
    }
}

impl LockFile {
    /// Remember the lock directory path.
    pub fn new(path: &str) -> (r: LockFile)
        ensures
            r@ == path@,
    {
        LockFile { path: path.to_owned() }
    }

    /// The lock directory path.
    pub fn path(&self) -> (r: &str)
        ensures
            r@ == self@,
    {
        self.path.as_str()
    }

    /// Path of the file, inside the lock directory, that records the
    /// process id of the current holder.
    pub fn pid_file_path(&self) -> (r: String)
        ensures
            r@ == self@ + "/pid"@,
    {
        let mut p = self.path.clone();
        p.append("/pid");
        p
    }
}

} // verus!
