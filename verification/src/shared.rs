//! The cache shared among many readers and one writer at a time. The
//! map's well-formedness is the lock's invariant, so every acquisition
//! sees a well-formed map; a digest is computed before the lock is
//! taken, and the exclusive section guards only the check-and-insert
//! decision and the map mutation — never the hashing.

use vstd::prelude::*;
use vstd::rwlock::RwLock;
use vstd::rwlock::RwLockPredicate;
use crate::entry::FileEntry;
use crate::hash::blake3_of;
use crate::hex::hex_of;
use crate::store::CacheEntryError;
use crate::store::FileCache;

verus! {

/// What every value stored under the lock satisfies: a well-formed map
/// over this cache's storage root.
pub struct CacheInv {
    pub cache_dir: Seq<char>,
}

impl RwLockPredicate<FileCache> for CacheInv {
    open spec fn inv(self, v: FileCache) -> bool {
        v.wf() && v.cache_dir@ == self.cache_dir
    }
}

/// A cache that many threads may read and insert into concurrently:
/// readers and the writer never overlap, no acquisition ever observes a
/// half-constructed entry or a duplicated digest, and concurrent inserts
/// of identical content race harmlessly — whichever wins the exclusive
/// section registers the one surviving entry, and every insert returns
/// the digest of its own content.
pub struct SharedCache {
    pub lock: RwLock<FileCache, CacheInv>,
}

impl SharedCache {
    /// The storage root this cache was built over.
    pub open spec fn root(self) -> Seq<char> {
        self.lock.pred().cache_dir
    }

    /// A fresh, empty shared cache over a storage root.
    pub fn new(cache_dir: String) -> (s: SharedCache)
        ensures
            s.root() == cache_dir@,
    {
        let ghost root = cache_dir@;
        let cache = FileCache::new(cache_dir);
        SharedCache { lock: RwLock::new(cache, Ghost(CacheInv { cache_dir: root })) }
    }

    /// Insert the file at `file_path` with the byte content the caller
    /// read. The digest is computed before the lock is taken; the
    /// exclusive section covers exactly the check-and-insert for that
    /// digest. Every insert of readable content succeeds and returns the
    /// digest string of that content; an unreadable path is rejected and
    /// changes nothing.
    pub fn insert(&self, file_path: String, content: Option<&[u8]>) -> (r: Result<
        String,
        CacheEntryError,
    >)
        ensures
            match content {
                Some(c) => r matches Ok(s) && s@ == hex_of(blake3_of(c@)),
                None => r matches Err(e) && e == CacheEntryError::InvalidFile,
            },
    {
        match content {
            None => Err(CacheEntryError::InvalidFile),
            Some(c) => {
                let mut fe = FileEntry::new(file_path);
                fe.do_hash(Some(c));
                let (mut cache, handle) = self.lock.acquire_write();
                let s = cache.register(fe);
                handle.release_write(cache);
                Ok(s)
            },
        }
    }

    /// Resolve a digest string under a shared read acquisition: any
    /// entry handed out is fully hashed and its digest renders exactly
    /// to the queried string.
    pub fn get(&self, file_hash: String) -> (r: Result<FileEntry, CacheEntryError>)
        ensures
            match r {
                Ok(e) => e.is_hashed() && hex_of(e.digest()) == file_hash@,
                Err(err) => err == CacheEntryError::NotFound,
            },
    {
        let handle = self.lock.acquire_read();
        let r = handle.borrow().get(file_hash);
        handle.release_read();
        r
    }

    /// A snapshot of the number of entries; under concurrent inserts it
    /// is stale the moment it returns.
    pub fn size(&self) -> usize {
        let handle = self.lock.acquire_read();
        let n = handle.borrow().len();
        handle.release_read();
        n
    }
}

} // verus!
