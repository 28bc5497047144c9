//! A guard whose resource is open for as long as the guard is.

use vstd::prelude::*;

verus! {

/// A guard on a named resource. It is open from the moment it is made until
/// it is closed, and closes itself when its owner lets go of it. A guard is
/// handed on as a whole; there is no second copy of it.
pub struct FileGuard {
    filename: String,
    is_open: bool,
}

impl FileGuard {
    /// The name that the guard was opened with.
    pub closed spec fn label(self) -> Seq<char> {
        self.filename@
    }

    /// Whether the guard is open.
    pub closed spec fn active(self) -> bool {
        self.is_open
    }

    /// The guard as `close` leaves it: the same name, no longer open.
    pub closed spec fn closed(self) -> FileGuard {
        FileGuard { filename: self.filename, is_open: false }
    }

    /// Opens a guard on `filename`.
    pub fn new(filename: &str) -> (guard: FileGuard)
        ensures
            guard.active(),
            guard.label() == filename@,
    {
        FileGuard { filename: filename.to_owned(), is_open: true }
    }

    /// Whether the guard is open.
    pub fn is_open(&self) -> (open: bool)
        ensures
            open == self.active(),
    {
        self.is_open
    }

    /// The name that the guard was opened with.
    pub fn filename(&self) -> (name: &str)
        ensures
            name@ == self.label(),
    {
        self.filename.as_str()
    }

    /// Closes the guard. Closing a closed guard changes nothing.
    pub fn close(&mut self)
        ensures
            !final(self).active(),
            final(self).label() == old(self).label(),
            *final(self) == old(self).closed(),
        opens_invariants none
        no_unwind
    {
        if self.is_open {
            self.is_open = false;
        }
    }

    /// A closed guard is not open, keeps its name, and stays as it is however
    /// often it is closed again.
    pub proof fn lemma_close_idempotent(self)
        ensures
            !self.closed().active(),
            self.closed().label() == self.label(),
            self.closed().closed() == self.closed(),
    {
    }
}

impl Drop for FileGuard {
    /// Closes the guard on every path on which its owner lets go of it: an
    /// open guard ends closed, a closed one stays closed, and either keeps
    /// its name.
    fn drop(&mut self)
        ensures
            !final(self).active(),
            final(self).label() == old(self).label(),
            *final(self) == old(self).closed(),
        opens_invariants none
        no_unwind
    {
        self.close();
    }
}

} // verus!
