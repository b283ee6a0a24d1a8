//! A batch of files copied, verified and deleted together.

use vstd::prelude::*;

use crate::models::file_entry::FileEntry;

verus! {

/// A planned unit of work: an identifier, its files in copy order, and the
/// number and total size of those files.
#[derive(Debug, PartialEq, Eq)]
pub struct Batch {
    pub id: String,
    pub files: Vec<FileEntry>,
    pub total_bytes: u64,
    pub file_count: usize,
}

impl Batch {
    /// Two batches with the same identifier, files and counters.
    pub open spec fn same_as(self, other: Batch) -> bool {
        &&& self.id == other.id
        &&& self.files@ == other.files@
        &&& self.total_bytes == other.total_bytes
        &&& self.file_count == other.file_count
    }
}

impl Clone for Batch {
    fn clone(&self) -> (r: Self)
        ensures
            r.same_as(*self),
    {
        let mut files: Vec<FileEntry> = Vec::new();
        let mut i: usize = 0;
        while i < self.files.len()
            invariant
                i <= self.files@.len(),
                files@ == self.files@.take(i as int),
            decreases self.files.len() - i,
        {
            files.push(self.files[i].clone());
            i = i + 1;
            assert(files@ =~= self.files@.take(i as int));
        }
        assert(self.files@.take(self.files.len() as int) =~= self.files@);
        assert(files@ =~= self.files@);
        Batch {
            id: self.id.clone(),
            files,
            total_bytes: self.total_bytes,
            file_count: self.file_count,
        }
    }
}

} // verus!
