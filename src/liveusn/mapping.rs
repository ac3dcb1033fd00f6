//! The lazy live mapping: full paths resolved by fetching one MFT record at a
//! time and following each name's parent up to the root, with the paths
//! memoised in an LRU cache.

use crate::liveusn::error::{ErrorKind, UsnLiveError};
use crate::mapping::{
    cache_get, cache_new, cache_pop, cache_put, join_rev, join_reversed, lru_contents, no_paths,
    views,
};
use crate::reference::ROOT_ENTRY;
use lru::LruCache;
use std::collections::hash_map::RandomState;
use vstd::prelude::*;
use vstd::string::*;

verus! {

/// Paths memoised by the live mapping.
pub const LIVE_CACHE_SIZE: usize = 1000;

/// The live mapping's cache of full paths by entry number.
pub struct LiveMapping {
    pub cache: LruCache<u64, String, RandomState>,
}

impl LiveMapping {
    pub open spec fn cache_view(&self) -> Map<u64, Seq<char>> {
        lru_contents(self.cache)
    }

    pub fn new() -> (r: LiveMapping)
        ensures
            r.cache_view() == no_paths(),
    {
        LiveMapping { cache: cache_new(LIVE_CACHE_SIZE) }
    }

    /// Forgets the cached path of `entry`, as a delete or an old name of it requires.
    pub fn remove_path_from_cache(&mut self, entry: u64)
        ensures
            final(self).cache_view() == old(self).cache_view().remove(entry),
    {
        cache_pop(&mut self.cache, entry);
    }

    /// The cached path of `entry`, if there is one.
    pub fn cached_path(&mut self, entry: u64) -> (r: Option<String>)
        ensures
            final(self).cache_view() == old(self).cache_view(),
            match r {
                Some(p) => old(self).cache_view().contains_key(entry) && p@ == old(
                    self,
                ).cache_view()[entry],
                None => !old(self).cache_view().contains_key(entry),
            },
    {
        cache_get(&mut self.cache, entry)
    }

    /// Caches the path that a walk resolved for `entry`.
    pub fn remember_path(&mut self, entry: u64, path: String)
        ensures
            final(self).cache_view().contains_key(entry),
            final(self).cache_view()[entry] == path@,
    {
        cache_put(&mut self.cache, entry, path);
    }
}

/// What a path walk needs next.
#[derive(Debug)]
pub enum WalkStep {
    /// Fetch the MFT record of this entry and hand it to `on_record`.
    Fetch(u64),
    /// The full path.
    Done(String),
    /// The walk cannot go on.
    Failed(UsnLiveError),
}

/// A walk from an entry up to the root, one fetched record at a time.
pub struct LivePathWalk {
    pub current: u64,
    pub names: Vec<String>,
    pub max_depth: usize,
}

impl LivePathWalk {
    /// A walk that starts at `entry` and gives up after `max_depth` names.
    pub fn new(entry: u64, max_depth: usize) -> (r: (LivePathWalk, WalkStep))
        ensures
            r.0.current == entry,
            r.0.names@.len() == 0,
            r.0.max_depth == max_depth,
            r.1 is Fetch && r.1->Fetch_0 == entry,
    {
        (LivePathWalk { current: entry, names: Vec::new(), max_depth }, WalkStep::Fetch(entry))
    }

    /// Takes in the record fetched for `current`: its number, and its best
    /// name with the parent's entry number. The name is kept; a parent that
    /// is the root ends the walk with the names joined root first, another
    /// parent is fetched next. A record other than the one asked for, a record
    /// without a name, or a walk deeper than `max_depth` fails.
    pub fn on_record(&mut self, record_number: u64, name: Option<(String, u64)>) -> (r: WalkStep)
        ensures
            final(self).max_depth == old(self).max_depth,
            record_number != old(self).current ==> r is Failed && r->Failed_0.kind
                == ErrorKind::WindowsError && final(self).names@ == old(self).names@,
            record_number == old(self).current && name is None ==> r is Failed
                && r->Failed_0.kind == ErrorKind::MftAttributeError && final(self).names@ == old(
                self,
            ).names@,
            record_number == old(self).current && name is Some ==> views(final(self).names@)
                == views(old(self).names@).push(name->Some_0.0@),
            record_number == old(self).current && name is Some && name->Some_0.1 == ROOT_ENTRY
                ==> r is Done && r->Done_0@ == join_rev(views(final(self).names@)),
            record_number == old(self).current && name is Some && name->Some_0.1 != ROOT_ENTRY
                && final(self).names@.len() <= old(self).max_depth ==> r is Fetch && r->Fetch_0
                == name->Some_0.1 && final(self).current == name->Some_0.1,
            record_number == old(self).current && name is Some && name->Some_0.1 != ROOT_ENTRY
                && final(self).names@.len() > old(self).max_depth ==> r is Failed
                && r->Failed_0.kind == ErrorKind::MftAttributeError,
    {
        if record_number != self.current {
            return WalkStep::Failed(
                UsnLiveError::invalid_thing("The record returned is not the one requested."),
            );
        }
        match name {
            None => WalkStep::Failed(
                UsnLiveError::unable_to_get_name_attr(
                    "Unable to retrieve filename attribute for entry.",
                ),
            ),
            Some((n, parent)) => {
                let ghost before = views(self.names@);
                self.names.push(n);
                proof {
                    assert(views(self.names@) =~= before.push(name->Some_0.0@));
                }
                if parent == ROOT_ENTRY {
                    WalkStep::Done(join_reversed(&self.names))
                } else if self.names.len() > self.max_depth {
                    WalkStep::Failed(
                        UsnLiveError::unable_to_get_name_attr(
                            "The walk to the root is longer than the volume has entries.",
                        ),
                    )
                } else {
                    self.current = parent;
                    WalkStep::Fetch(parent)
                }
            },
        }
    }
}

/// The next entry a highest-to-lowest enumeration of the live MFT asks for:
/// the query returns the nearest allocated record at or below the one asked,
/// so the walk goes on just below the record it got; `None` once entry 0 is done.
pub fn next_entry_below(returned_record_number: u64) -> (r: Option<u64>)
    ensures
        returned_record_number == 0 ==> r is None,
        returned_record_number > 0 ==> r == Some((returned_record_number - 1) as u64),
{
    if returned_record_number == 0 {
        None
    } else {
        Some(returned_record_number - 1)
    }
}

} // verus!
