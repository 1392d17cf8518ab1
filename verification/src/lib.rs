//! A content-addressable file cache: file contents are fingerprinted by a
//! cryptographic digest and made retrievable by that digest through a simple
//! key-value interface.
//!
//! The crate holds the cache engine itself: the entry abstraction (a path
//! together with the digest of its content), the map from digest to entry
//! with its de-duplication rule, the same map shared behind a verified
//! read-write lock, the hexadecimal rendering of digests, and the
//! decision rules of the directory-synchronization loop. File and network
//! I/O stay with the caller, which hands the engine plain byte content.

pub mod entry;
pub mod hash;
pub mod hex;
pub mod shared;
pub mod store;
pub mod sync;
pub mod upload;
