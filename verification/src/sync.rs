//! Decision rules of the directory-synchronization loop. The loop itself
//! — receiving debounced filesystem events and reading file content —
//! runs outside the engine; it asks `dispatch_event` what an event calls
//! for and feeds observed paths through `apply_insert`, which isolates
//! per-file failures so that one bad file never stops the watch loop.

use vstd::prelude::*;
use crate::hash::blake3_of;
use crate::hex::hex_of;
use crate::store::FileCache;
use crate::store::adds_to;

verus! {

/// A debounced filesystem event, with its paths as plain strings.
pub enum WatchEvent {
    /// A file is about to be written; the settled write follows.
    NoticeWrite(String),
    /// A file is about to be removed; the settled removal follows.
    NoticeRemove(String),
    /// A file was created.
    Create(String),
    /// A file was written and the write has settled.
    Write(String),
    /// A file's permissions changed.
    Chmod(String),
    /// A file was removed.
    Remove(String),
    /// A file was renamed.
    Rename(String, String),
    /// The watcher asks for a full rescan.
    Rescan,
    /// The watch itself reported an error.
    WatchError,
}

/// What the loop does with one event.
pub enum SyncAction {
    /// Feed the path into the cache.
    Insert(String),
    /// Do nothing.
    Ignore,
}

/// The dispatch rule: a created file and a settled write are fed into
/// the cache; every other event — removals and renames included, since
/// the map is keyed by content, not path — is deliberately ignored.
pub fn dispatch_event(event: WatchEvent) -> (a: SyncAction)
    ensures
        match event {
            WatchEvent::Create(p) => a matches SyncAction::Insert(q) && q@ == p@,
            WatchEvent::Write(p) => a matches SyncAction::Insert(q) && q@ == p@,
            _ => a is Ignore,
        },
{
    match event {
        WatchEvent::Create(p) => SyncAction::Insert(p),
        WatchEvent::Write(p) => SyncAction::Insert(p),
        _ => SyncAction::Ignore,
    }
}

/// Feed one observed path, with the content the loop managed to read,
/// into the cache. Failure is isolated: an unreadable path leaves the
/// map exactly as it was and yields no digest, instead of unwinding the
/// loop; a readable one is inserted under the de-duplication rule and
/// its digest string handed back for logging.
pub fn apply_insert(cache: &mut FileCache, path: String, content: Option<&[u8]>) -> (r: Option<
    String,
>)
    requires
        old(cache).wf(),
    ensures
        final(cache).wf(),
        final(cache).cache_dir@ == old(cache).cache_dir@,
        match content {
            Some(c) => {
                &&& r matches Some(s) && s@ == hex_of(blake3_of(c@))
                &&& adds_to(old(cache).entries@, final(cache).entries@, path@, c@)
            },
            None => r is None && final(cache).entries@ == old(cache).entries@,
        },
{
    match cache.add(path, content) {
        Ok(s) => Some(s),
        Err(_) => None,
    }
}

} // verus!
