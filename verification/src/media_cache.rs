//! The order of the in-memory image preview cache: least recently used
//! first, evicted from the front once the cache is full.
use vstd::prelude::*;

use crate::avatar_window::string_views;
use crate::events::{FileMeta, Metadata};
use crate::text_order::{compare_text, Comparison};

verus! {

/// Previews kept in memory at most.
pub const IMAGE_CACHE_CAPACITY: usize = 50;

/// `s` without any occurrence of `x`, the rest in order.
pub open spec fn without(s: Seq<Seq<char>>, x: Seq<char>) -> Seq<Seq<char>>
    decreases s.len(),
{
    if s.len() == 0 {
        Seq::empty()
    } else {
        let rest = without(s.drop_last(), x);
        if s.last() == x {
            rest
        } else {
            rest.push(s.last())
        }
    }
}

/// Moves `path` to the most recently used end of the order, dropping any
/// earlier place it had.
pub fn touch_order(order: &mut Vec<String>, path: &str)
    ensures
        string_views(final(order)@) == without(string_views(old(order)@), path@).push(path@),
{
    let ghost before = string_views(order@);
    let mut kept: Vec<String> = Vec::new();
    let mut i: usize = 0;
    while i < order.len()
        invariant
            0 <= i <= order.len(),
            before == string_views(order@),
            string_views(kept@) == without(before.take(i as int), path@),
        decreases order.len() - i,
    {
        let item = order[i].clone();
        proof {
            assert(before.take(i + 1).drop_last() =~= before.take(i as int));
            assert(before.take(i + 1).last() == order@[i as int]@);
        }
        if compare_text(item.as_str(), path) != Comparison::Equal {
            kept.push(item);
            proof {
                assert(string_views(kept@) =~= without(before.take(i as int), path@).push(order@[i as int]@));
            }
        }
        i += 1;
    }
    proof {
        assert(before.take(order.len() as int) =~= before);
    }
    kept.push(String::from_str(path));
    proof {
        assert(string_views(kept@) =~= without(before, path@).push(path@));
    }
    *order = kept;
}

/// Makes room before a preview is cached: when `path` is not cached yet
/// and the cache is full, the least recently used path leaves the order
/// and is returned, for the caller to drop from the cache.
pub fn evict_for_insert(order: &mut Vec<String>, already_cached: bool, cached_count: usize) -> (evicted: Option<String>)
    ensures
        !already_cached && cached_count >= IMAGE_CACHE_CAPACITY && old(order)@.len() > 0 ==> {
            &&& evicted is Some
            &&& evicted->Some_0@ == old(order)@[0]@
            &&& final(order)@ == old(order)@.drop_first()
        },
        !(!already_cached && cached_count >= IMAGE_CACHE_CAPACITY && old(order)@.len() > 0) ==> {
            &&& evicted is None
            &&& final(order)@ == old(order)@
        },
{
    if !already_cached && cached_count >= IMAGE_CACHE_CAPACITY && order.len() > 0 {
        let oldest = order.remove(0);
        proof {
            assert(order@ =~= old(order)@.drop_first());
        }
        Some(oldest)
    } else {
        None
    }
}

/// The metadata of a message once the preview of `evicted` has left the
/// cache: a loaded preview of that file must be loaded again, and stays
/// downloaded; anything else is unchanged.
pub fn metadata_after_eviction(file_path: Option<&str>, meta: Option<Metadata>, evicted: &str) -> (r: Option<Metadata>)
    ensures
        r == (match (file_path, meta) {
            (Some(p), Some(Metadata::File(FileMeta::Loaded))) if p@ == evicted@ => Some(
                Metadata::File(FileMeta::Downloaded),
            ),
            _ => meta,
        }),
{
    match (file_path, meta) {
        (Some(p), Some(Metadata::File(FileMeta::Loaded))) => {
            if compare_text(p, evicted) == Comparison::Equal {
                Some(Metadata::File(FileMeta::Downloaded))
            } else {
                meta
            }
        },
        _ => meta,
    }
}

} // verus!
