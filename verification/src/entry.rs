//! One cached file: its filesystem path and the digest state of its
//! content. The digest is computed once, from byte content the caller
//! hands in, and never recomputed for the same entry.

use vstd::prelude::*;
use vstd::pervasive::unreached;
use crate::hash::blake3_of;
use crate::hash::digest_bytes_parallel;
use crate::hex::hex_of;
use crate::hex::to_hex;

verus! {

/// Why an entry carries no digest.
#[derive(Clone, Copy, Debug, PartialEq, Eq, Structural)]
pub enum FileEntryError {
    /// The digest has not been computed yet.
    NeedsUpdate,
    /// The path had no content to hash when it was observed.
    EmptyFile,
    /// The path could not be opened for reading as a regular file.
    FileOpenError,
}

/// The digest state of an entry: not yet computed, computed exactly once,
/// or found uncomputable. Every code path must account for all three.
#[derive(Debug)]
pub enum HashState {
    Unhashed,
    Hashed(Vec<u8>),
    Invalid(FileEntryError),
}

/// One cached file. The path is fixed at construction (a rename produces
/// a new entry); the digest is write-once.
#[derive(Debug)]
pub struct FileEntry {
    pub path: String,
    pub state: HashState,
}

/// Model-level equality of two entries: same path, same digest state.
pub open spec fn entry_eq(a: FileEntry, b: FileEntry) -> bool {
    &&& a.path@ == b.path@
    &&& match (a.state, b.state) {
        (HashState::Unhashed, HashState::Unhashed) => true,
        (HashState::Hashed(x), HashState::Hashed(y)) => x@ == y@,
        (HashState::Invalid(p), HashState::Invalid(q)) => p == q,
        _ => false,
    }
}

impl FileEntry {
    /// Whether a digest has been computed for this entry.
    pub open spec fn is_hashed(self) -> bool {
        self.state is Hashed
    }

    /// The computed digest bytes; meaningful only when `is_hashed`.
    pub open spec fn digest(self) -> Seq<u8> {
        match self.state {
            HashState::Hashed(d) => d@,
            _ => Seq::empty(),
        }
    }

    /// A computed digest always has the hash function's fixed size.
    pub open spec fn wf(self) -> bool {
        self.is_hashed() ==> self.digest().len() == 32
    }

    /// Create an entry bound to `path`, its digest not yet computed.
    pub fn new(path: String) -> (e: FileEntry)
        ensures
            e.path@ == path@,
            e.state is Unhashed,
            e.wf(),
    {
        FileEntry { path, state: HashState::Unhashed }
    }

    /// Compute the digest over the entry's byte content, handed in by the
    /// caller, using the parallel-chunk hashing path. `None` records that
    /// the path could not be read as a regular file; the entry then stays
    /// invalid for indexing.
    pub fn do_hash(&mut self, content: Option<&[u8]>)
        requires
            old(self).state is Unhashed,
        ensures
            final(self).path@ == old(self).path@,
            final(self).wf(),
            match content {
                Some(c) => final(self).is_hashed() && final(self).digest() == blake3_of(c@),
                None => final(self).state matches HashState::Invalid(
                    FileEntryError::FileOpenError,
                ),
            },
    {
        match content {
            Some(c) => {
                let d = digest_bytes_parallel(c);
                self.state = HashState::Hashed(d);
            },
            None => {
                self.state = HashState::Invalid(FileEntryError::FileOpenError);
            },
        }
    }

    /// Whether the entry is valid for indexing: a digest exists.
    pub fn is_valid(&self) -> (b: bool)
        ensures
            b == self.is_hashed(),
    {
        match &self.state {
            HashState::Hashed(_) => true,
            _ => false,
        }
    }

    /// The computed digest bytes. Callers must check validity first.
    pub fn digest_bytes(&self) -> (d: &Vec<u8>)
        requires
            self.is_hashed(),
        ensures
            d@ == self.digest(),
    {
        if let HashState::Hashed(d) = &self.state {
            d
        } else {
            unreached()
        }
    }

    /// The digest rendered as a stable lowercase hexadecimal string.
    /// Callers must check validity first rather than rely on a graceful
    /// failure here.
    pub fn get_hash_string(&self) -> (s: String)
        requires
            self.is_hashed(),
        ensures
            s@ == hex_of(self.digest()),
    {
        let d = self.digest_bytes();
        to_hex(d.as_slice())
    }

    /// A read-only view of the backing path, for downstream consumption.
    /// The file is not checked to still exist at read time.
    pub fn open_path(&self) -> (p: String)
        ensures
            p@ == self.path@,
    {
        self.path.clone()
    }

    /// An independent copy of the entry, equal to it in the model.
    pub fn duplicate(&self) -> (r: FileEntry)
        ensures
            entry_eq(r, *self),
            r.wf() == self.wf(),
    {
        let state = match &self.state {
            HashState::Unhashed => HashState::Unhashed,
            HashState::Hashed(d) => HashState::Hashed(clone_bytes(d)),
            HashState::Invalid(reason) => HashState::Invalid(*reason),
        };
        FileEntry { path: self.path.clone(), state }
    }
}

/// An element-for-element copy of a byte vector.
fn clone_bytes(d: &Vec<u8>) -> (r: Vec<u8>)
    ensures
        r@ == d@,
{
    let mut r: Vec<u8> = Vec::new();
    let mut i: usize = 0;
    while i < d.len()
        invariant
            i <= d@.len(),
            r@ == d@.take(i as int),
        decreases d@.len() - i,
    {
        r.push(d[i]);
        i = i + 1;
        proof {
            assert(r@ =~= d@.take(i as int));
        }
    }
    proof {
        assert(d@.take(d@.len() as int) =~= d@);
    }
    r
}

} // verus!
