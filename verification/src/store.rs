//! The cache map: digest to entry, with de-duplication. An entry is
//! registered only after its digest is fully computed, there is at most
//! one entry per content digest, and the first writer wins.

use vstd::prelude::*;
use crate::entry::FileEntry;
use crate::entry::HashState;
use crate::entry::entry_eq;
use crate::hash::blake3_of;
use crate::hex::from_hex;
use crate::hex::hex_of;
use crate::hex::lemma_hex_round_trip;
use crate::hex::lemma_hex_encode_decode;

verus! {

/// Errors of the cache map. `NotFound`: no entry under the digest.
/// `InvalidFile`: the path to insert did not denote a readable regular
/// file. `FileLocked` and `FileExists` are kept for callers that guard
/// the storage root themselves; the map raises neither.
#[derive(Clone, Copy, Debug, PartialEq, Eq, Structural)]
pub enum CacheEntryError {
    NotFound,
    FileLocked,
    FileExists,
    InvalidFile,
}

/// Every entry carries a computed digest, and no two entries carry the
/// same digest.
pub open spec fn entries_wf(s: Seq<FileEntry>) -> bool {
    &&& forall|i: int|
        0 <= i < s.len() ==> (#[trigger] s[i]).is_hashed()
    &&& forall|i: int, j: int|
        0 <= i < s.len() && 0 <= j < s.len() && i != j ==> (#[trigger] s[i]).digest() != (
        #[trigger] s[j]).digest()
}

/// Whether some entry carries digest `d`.
pub open spec fn has_digest(s: Seq<FileEntry>, d: Seq<u8>) -> bool {
    exists|i: int| 0 <= i < s.len() && (#[trigger] s[i]).digest() == d
}

/// How registering one fully hashed entry changes the entry sequence:
/// nothing when its digest `d` is already present (the existing entry is
/// kept), one appended entry bound to `path` otherwise.
pub open spec fn registers(
    pre: Seq<FileEntry>,
    post: Seq<FileEntry>,
    path: Seq<char>,
    d: Seq<u8>,
) -> bool {
    if has_digest(pre, d) {
        post == pre
    } else {
        &&& post.len() == pre.len() + 1
        &&& post.take(pre.len() as int) == pre
        &&& post.last().is_hashed()
        &&& post.last().digest() == d
        &&& post.last().path@ == path
    }
}

/// How one insert of `content` under `path` changes the entry sequence:
/// what registering an entry carrying the content's digest does.
pub open spec fn adds_to(
    pre: Seq<FileEntry>,
    post: Seq<FileEntry>,
    path: Seq<char>,
    content: Seq<u8>,
) -> bool {
    registers(pre, post, path, blake3_of(content))
}

/// How many entries carry digest `d`.
pub open spec fn count_digest(s: Seq<FileEntry>, d: Seq<u8>) -> nat
    decreases s.len(),
{
    if s.len() == 0 {
        0
    } else {
        count_digest(s.drop_last(), d) + if s.last().digest() == d {
            1nat
        } else {
            0nat
        }
    }
}

/// In a well-formed store a digest is carried by exactly one entry when
/// present, and by none otherwise.
pub proof fn lemma_count_digest(s: Seq<FileEntry>, d: Seq<u8>)
    requires
        entries_wf(s),
    ensures
        count_digest(s, d) == if has_digest(s, d) {
            1nat
        } else {
            0nat
        },
    decreases s.len(),
{
    if s.len() == 0 {
        assert(!has_digest(s, d));
    } else {
        let pre = s.drop_last();
        assert(entries_wf(pre)) by {
            assert(forall|i: int| 0 <= i < pre.len() ==> pre[i] == s[i]);
        }
        lemma_count_digest(pre, d);
        if s.last().digest() == d {
            assert(has_digest(s, d)) by {
                assert(s[s.len() - 1].digest() == d);
            }
            assert(!has_digest(pre, d)) by {
                if has_digest(pre, d) {
                    let i = choose|i: int| 0 <= i < pre.len() && pre[i].digest() == d;
                    assert(s[i].digest() == s[s.len() - 1].digest());
                }
            }
        } else {
            assert(has_digest(pre, d) == has_digest(s, d)) by {
                if has_digest(s, d) {
                    let i = choose|i: int| 0 <= i < s.len() && s[i].digest() == d;
                    assert(i < pre.len() && pre[i].digest() == d);
                }
                if has_digest(pre, d) {
                    let i = choose|i: int| 0 <= i < pre.len() && pre[i].digest() == d;
                    assert(s[i].digest() == d);
                }
            }
        }
    }
}

/// A registration keeps the store well formed.
pub proof fn lemma_registers_wf(
    pre: Seq<FileEntry>,
    post: Seq<FileEntry>,
    path: Seq<char>,
    d: Seq<u8>,
)
    requires
        entries_wf(pre),
        registers(pre, post, path, d),
    ensures
        entries_wf(post),
{
    if !has_digest(pre, d) {
        assert(forall|i: int| 0 <= i < pre.len() ==> post[i] == pre[i]);
        assert forall|i: int, j: int|
            0 <= i < post.len() && 0 <= j < post.len() && i != j implies (
        #[trigger] post[i]).digest() != (#[trigger] post[j]).digest() by {
            if j == post.len() - 1 && i < pre.len() {
                assert(!(pre[i].digest() == d));
            }
            if i == post.len() - 1 && j < pre.len() {
                assert(!(pre[j].digest() == d));
            }
        }
    }
}

/// De-duplication: inserting the same content twice, under any two
/// paths, leaves the store of the first insert unchanged, with exactly
/// one entry carrying the content's digest; both inserts return the same
/// digest string, since the string is a function of the content alone.
pub proof fn lemma_insert_dedup(
    s0: Seq<FileEntry>,
    s1: Seq<FileEntry>,
    s2: Seq<FileEntry>,
    p1: Seq<char>,
    p2: Seq<char>,
    c: Seq<u8>,
)
    requires
        entries_wf(s0),
        adds_to(s0, s1, p1, c),
        adds_to(s1, s2, p2, c),
    ensures
        s2 == s1,
        count_digest(s1, blake3_of(c)) == 1,
{
    let d = blake3_of(c);
    lemma_registers_wf(s0, s1, p1, d);
    assert(has_digest(s1, d)) by {
        if !has_digest(s0, d) {
            assert(s1[s1.len() - 1].digest() == d);
        }
    }
    lemma_count_digest(s1, d);
}

/// Idempotence under repetition: once the content's digest is present,
/// every further insert of the same content leaves the store exactly as
/// it is. Any number of inserts of one content therefore leave one
/// entry, all of them returning the same digest string.
pub proof fn lemma_insert_idempotent(
    s: Seq<FileEntry>,
    s2: Seq<FileEntry>,
    p: Seq<char>,
    c: Seq<u8>,
)
    requires
        entries_wf(s),
        has_digest(s, blake3_of(c)),
        adds_to(s, s2, p, c),
    ensures
        s2 == s,
        count_digest(s, blake3_of(c)) == 1,
{
    lemma_count_digest(s, blake3_of(c));
}

/// Round trip: after an insert of content `c`, the store holds the
/// digest of `c`, and every entry whose digest renders to the returned
/// digest string carries exactly the digest of `c` — a lookup by the
/// returned string can only find content-matching entries.
pub proof fn lemma_round_trip(
    s0: Seq<FileEntry>,
    s1: Seq<FileEntry>,
    p: Seq<char>,
    c: Seq<u8>,
)
    requires
        entries_wf(s0),
        adds_to(s0, s1, p, c),
    ensures
        has_digest(s1, blake3_of(c)),
        forall|i: int|
            0 <= i < s1.len() && hex_of((#[trigger] s1[i]).digest()) == hex_of(blake3_of(c))
                ==> s1[i].digest() == blake3_of(c),
{
    let d = blake3_of(c);
    assert(has_digest(s1, d)) by {
        if has_digest(s0, d) {
            let i = choose|i: int| 0 <= i < s0.len() && s0[i].digest() == d;
            assert(s1[i].digest() == d);
        } else {
            assert(s1[s1.len() - 1].digest() == d);
        }
    }
    assert forall|i: int|
        0 <= i < s1.len() && hex_of((#[trigger] s1[i]).digest()) == hex_of(d) implies s1[i].digest()
        == d by {
        lemma_hex_round_trip(s1[i].digest());
        lemma_hex_round_trip(d);
    }
}

/// The mapping from content digest to cache entry, over one storage
/// root. The map is in memory only; it is populated by explicit inserts
/// and by the directory-synchronization loop, never from a serialized
/// index.
pub struct FileCache {
    pub cache_dir: String,
    pub entries: Vec<FileEntry>,
}

impl FileCache {
    /// The map's invariant: fully computed, pairwise distinct digests.
    pub open spec fn wf(self) -> bool {
        entries_wf(self.entries@)
    }

    /// A fresh, empty cache over a storage root. Creating the root
    /// directory on disk and registering the watcher are the caller's
    /// part; the map itself starts empty and is not pre-scanned.
    pub fn new(cache_dir: String) -> (c: FileCache)
        ensures
            c.wf(),
            c.entries@.len() == 0,
            c.cache_dir@ == cache_dir@,
    {
        FileCache { cache_dir, entries: Vec::new() }
    }

    /// Number of entries in the map.
    pub fn len(&self) -> (n: usize)
        ensures
            n == self.entries@.len(),
    {
        self.entries.len()
    }

    /// The index of the entry carrying digest `d`, if one does.
    fn find_digest(&self, d: &Vec<u8>) -> (r: Option<usize>)
        requires
            self.wf(),
        ensures
            match r {
                Some(i) => i < self.entries@.len() && self.entries@[i as int].digest() == d@,
                None => !has_digest(self.entries@, d@),
            },
    {
        let n = self.entries.len();
        let mut i: usize = 0;
        while i < n
            invariant
                self.wf(),
                n == self.entries@.len(),
                i <= n,
                forall|j: int| 0 <= j < i ==> (#[trigger] self.entries@[j]).digest() != d@,
            decreases n - i,
        {
            if let HashState::Hashed(e) = &self.entries[i].state {
                if bytes_eq(e, d) {
                    return Some(i);
                }
            }
            i = i + 1;
        }
        None
    }

    /// Register a fully constructed entry: keep it under its digest
    /// unless an entry with that digest already exists — first writer
    /// wins, the existing entry is kept and the new one discarded — and
    /// return the digest string either way. An entry is only ever
    /// visible in the map with its digest fully computed.
    pub fn register(&mut self, fe: FileEntry) -> (r: String)
        requires
            old(self).wf(),
            fe.is_hashed(),
        ensures
            final(self).wf(),
            final(self).cache_dir@ == old(self).cache_dir@,
            r@ == hex_of(fe.digest()),
            registers(old(self).entries@, final(self).entries@, fe.path@, fe.digest()),
    {
        let ghost pre = self.entries@;
        let s = fe.get_hash_string();
        let found = self.find_digest(fe.digest_bytes());
        match found {
            Some(_) => s,
            None => {
                self.entries.push(fe);
                proof {
                    assert(self.entries@.take(pre.len() as int) =~= pre);
                    lemma_registers_wf(
                        pre,
                        self.entries@,
                        self.entries@.last().path@,
                        self.entries@.last().digest(),
                    );
                }
                s
            },
        }
    }

    /// Insert the file at `file_path` whose byte content the caller read:
    /// compute its digest, register a fresh entry under that digest
    /// unless one already exists — first writer wins, the existing entry
    /// is kept and the new one discarded — and return the digest string.
    /// `None` content records a path that did not denote a readable
    /// regular file: the insert is rejected and the map is unchanged.
    pub fn add(&mut self, file_path: String, content: Option<&[u8]>) -> (r: Result<
        String,
        CacheEntryError,
    >)
        requires
            old(self).wf(),
        ensures
            final(self).wf(),
            final(self).cache_dir@ == old(self).cache_dir@,
            match content {
                Some(c) => {
                    &&& r matches Ok(s) && s@ == hex_of(blake3_of(c@))
                    &&& adds_to(old(self).entries@, final(self).entries@, file_path@, c@)
                },
                None => {
                    &&& r matches Err(e) && e == CacheEntryError::InvalidFile
                    &&& final(self).entries@ == old(self).entries@
                },
            },
    {
        match content {
            None => Err(CacheEntryError::InvalidFile),
            Some(c) => {
                let mut fe = FileEntry::new(file_path);
                fe.do_hash(Some(c));
                Ok(self.register(fe))
            },
        }
    }

    /// Resolve a digest string to an entry handle: a copy of the unique
    /// entry whose digest renders to `file_hash`, or `NotFound` when the
    /// string is not a well-formed lowercase digest string or no entry's
    /// digest renders to it.
    pub fn get(&self, file_hash: String) -> (r: Result<FileEntry, CacheEntryError>)
        requires
            self.wf(),
        ensures
            match r {
                Ok(e) => exists|i: int|
                    0 <= i < self.entries@.len() && entry_eq(e, #[trigger] self.entries@[i])
                        && hex_of(self.entries@[i].digest()) == file_hash@,
                Err(err) => err == CacheEntryError::NotFound && forall|i: int|
                    0 <= i < self.entries@.len() ==> hex_of(
                        (#[trigger] self.entries@[i]).digest(),
                    ) != file_hash@,
            },
    {
        let decoded = from_hex(file_hash.as_str());
        match decoded {
            Some(d) => {
                match self.find_digest(&d) {
                    Some(i) => {
                        let e = self.entries[i].duplicate();
                        proof {
                            lemma_hex_encode_decode(file_hash@);
                            assert(hex_of(self.entries@[i as int].digest()) == file_hash@);
                        }
                        Ok(e)
                    },
                    None => {
                        proof {
                            assert forall|i: int|
                                0 <= i < self.entries@.len() implies hex_of(
                                (#[trigger] self.entries@[i]).digest(),
                            ) != file_hash@ by {
                                if hex_of(self.entries@[i].digest()) == file_hash@ {
                                    lemma_hex_round_trip(self.entries@[i].digest());
                                    assert(self.entries@[i].digest() == d@);
                                }
                            }
                        }
                        Err(CacheEntryError::NotFound)
                    },
                }
            },
            None => {
                proof {
                    assert forall|i: int|
                        0 <= i < self.entries@.len() implies hex_of(
                        (#[trigger] self.entries@[i]).digest(),
                    ) != file_hash@ by {
                        lemma_hex_round_trip(self.entries@[i].digest());
                    }
                }
                Err(CacheEntryError::NotFound)
            },
        }
    }
}

/// Whether two byte vectors hold the same bytes.
fn bytes_eq(a: &Vec<u8>, b: &Vec<u8>) -> (r: bool)
    ensures
        r == (a@ == b@),
{
    if a.len() != b.len() {
        return false;
    }
    let n = a.len();
    let mut i: usize = 0;
    while i < n
        invariant
            n == a@.len() == b@.len(),
            i <= n,
            forall|j: int| 0 <= j < i ==> a@[j] == b@[j],
        decreases n - i,
    {
        if a[i] != b[i] {
            return false;
        }
        i = i + 1;
    }
    proof {
        assert(a@ =~= b@);
    }
    true
}

} // verus!
