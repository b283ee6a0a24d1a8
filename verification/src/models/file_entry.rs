//! One file found under the source root.

use vstd::prelude::*;

verus! {

/// A file under the source root: its path relative to the root, its size, and
/// its modification time in seconds since the Unix epoch when it was known.
#[derive(Debug, PartialEq, Eq)]
pub struct FileEntry {
    pub relative_path: String,
    pub size_bytes: u64,
    pub modified_time: Option<u64>,
}

impl Clone for FileEntry {
    fn clone(&self) -> (r: Self)
        ensures
            r == *self,
    {
        FileEntry {
            relative_path: self.relative_path.clone(),
            size_bytes: self.size_bytes,
            modified_time: self.modified_time,
        }
    }
}

} // verus!
