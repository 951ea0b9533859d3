//! Serving a listing of entity versions page by page: versions are gathered into a buffer,
//! ordered by the time from which they are valid, and each page takes the first of them.

use vstd::prelude::*;
use crate::ChroniclerEntity;
use crate::search::{TimeKeyed, SortKey, reversed, stable_sort, stable_sort_vec, by_sort_key, distinct_keys, lemma_stable_sort_orders, lemma_stable_sort_sorted,
    lemma_stable_sort_distinct, lemma_stable_sort_descending};

verus! {

/// The order in which a listing is served.
#[derive(Clone, Copy, Debug, PartialEq, Eq, Structural)]
pub enum Order {
    Asc,
    Desc,
}

/// What a listing holds: every version between two times, or each entity as it was at a time.
#[derive(Clone, Copy, Debug, PartialEq, Eq, Structural)]
pub enum ChronV2EndpointKind {
    Versions(u32, u32),
    Entities(u32),
}

/// A listing being served: the versions gathered but not yet served, and the entities whose
/// versions are still to be gathered (taken from the back).
pub struct InternalPaging<T> {
    pub remaining_data: Vec<ChroniclerEntity<T>>,
    pub remaining_ids: Vec<String>,
    pub kind: ChronV2EndpointKind,
}

impl<T> TimeKeyed for ChroniclerEntity<T> {
    open spec fn time_key(&self) -> int {
        self.valid_from as int
    }

    fn key(&self) -> (k: u64) {
        self.valid_from as u64
    }
}

impl<T> SortKey for ChroniclerEntity<T> {
    open spec fn spec_sort_key(&self) -> int {
        self.valid_from as int
    }

    fn sort_key(&self) -> (k: i128) {
        self.valid_from as i128
    }
}

pub open spec fn by_valid_from<T>() -> spec_fn(ChroniclerEntity<T>) -> int {
    |e: ChroniclerEntity<T>| e.valid_from as int
}

/// Orders versions by the time from which they are valid; versions valid from the same time
/// keep their order.
pub fn sort_versions<T>(v: Vec<ChroniclerEntity<T>>) -> (res: Vec<ChroniclerEntity<T>>)
    ensures
        res@ == stable_sort(v@, by_valid_from::<T>()),
{
    proof {
        assert(by_valid_from::<T>() =~= by_sort_key::<ChroniclerEntity<T>>());
    }
    stable_sort_vec(v)
}


/// Takes the first `count` versions of a buffer (all of them when it holds fewer), leaving
/// the rest in it.
pub fn drain_page<T>(buffer: &mut Vec<ChroniclerEntity<T>>, count: usize) -> (res: Vec<ChroniclerEntity<T>>)
    ensures
        res@ == old(buffer)@.take(if count < old(buffer)@.len() { count as int } else { old(buffer)@.len() as int }),
        final(buffer)@ == old(buffer)@.skip(if count < old(buffer)@.len() { count as int } else { old(buffer)@.len() as int }),
{
    let ghost orig = buffer@;
    let n = if count < buffer.len() { count } else { buffer.len() };
    let mut page = buffer.split_off(n);
    std::mem::swap(buffer, &mut page);
    assert(page@ =~= orig.take(n as int));
    assert(buffer@ =~= orig.skip(n as int));
    page
}

/// The versions of a buffer in the order of a listing: by the time from which they are valid
/// (versions valid from the same time keep their order), newest first for `Desc`.
pub open spec fn listing_order<T>(s: Seq<ChroniclerEntity<T>>, order: Order) -> Seq<ChroniclerEntity<T>> {
    match order {
        Order::Asc => stable_sort(s, by_valid_from::<T>()),
        Order::Desc => stable_sort(s, by_valid_from::<T>()).reverse(),
    }
}

/// Serves a page of a listing from its buffer: orders what the buffer holds for the listing,
/// takes the first `count` versions and leaves the rest, in that order, for the next page.
pub fn serve_page<T>(buffer: &mut Vec<ChroniclerEntity<T>>, count: usize, order: Order) -> (res: Vec<ChroniclerEntity<T>>)
    ensures
        res@ == listing_order(old(buffer)@, order).take(
            if count < old(buffer)@.len() { count as int } else { old(buffer)@.len() as int }),
        final(buffer)@ == listing_order(old(buffer)@, order).skip(
            if count < old(buffer)@.len() { count as int } else { old(buffer)@.len() as int }),
{
    let mut taken: Vec<ChroniclerEntity<T>> = Vec::new();
    std::mem::swap(&mut taken, buffer);
    let sorted = sort_versions(taken);
    let mut ordered = match order {
        Order::Asc => sorted,
        Order::Desc => reversed(sorted),
    };
    proof {
        crate::search::lemma_stable_sort_len(old(buffer)@, by_valid_from::<T>());
    }
    let page = drain_page(&mut ordered, count);
    *buffer = ordered;
    page
}

/// Whether a listing needs another entity's versions before a page of `count` can be served:
/// while its buffer holds fewer than `count` and entities are left, the last one is next.
pub fn next_entity<T>(page: &InternalPaging<T>, count: usize) -> (res: Option<String>)
    ensures
        res is Some <==> page.remaining_data@.len() < count && page.remaining_ids@.len() > 0,
        res matches Some(id) ==> id == page.remaining_ids@.last(),
{
    if page.remaining_data.len() < count && page.remaining_ids.len() > 0 {
        Some(page.remaining_ids[page.remaining_ids.len() - 1].clone())
    } else {
        None
    }
}

/// What a page leaves in its buffer is already in the listing's order: with nothing new
/// gathered, the next page goes on exactly where this one stopped. For a newest-first listing
/// the versions must be valid from different times (versions from the same time would be
/// served in the other order).
pub proof fn lemma_rest_in_order<T>(buffer: Seq<ChroniclerEntity<T>>, n: int, order: Order)
    requires
        0 <= n <= buffer.len(),
        order == Order::Desc ==> distinct_keys(buffer, by_valid_from::<T>()),
    ensures
        listing_order(listing_order(buffer, order).skip(n), order) == listing_order(buffer, order).skip(n),
{
    let key = by_valid_from::<T>();
    let sorted = stable_sort(buffer, key);
    crate::search::lemma_stable_sort_len(buffer, key);
    lemma_stable_sort_orders(buffer, key);
    match order {
        Order::Asc => {
            let rest = sorted.skip(n);
            assert forall|i: int, j: int| 0 <= i <= j < rest.len() implies key(#[trigger] rest[i]) <= key(#[trigger] rest[j]) by {
                assert(rest[i] == sorted[i + n] && rest[j] == sorted[j + n]);
            }
            lemma_stable_sort_sorted(rest, key);
        },
        Order::Desc => {
            lemma_stable_sort_distinct(buffer, key);
            let rev = sorted.reverse();
            let rest = rev.skip(n);
            assert forall|i: int, j: int| 0 <= i < j < rest.len() implies key(#[trigger] rest[i]) > key(#[trigger] rest[j]) by {
                let a = sorted.len() - 1 - (i + n);
                let b = sorted.len() - 1 - (j + n);
                assert(rest[i] == sorted[a] && rest[j] == sorted[b]);
                assert(key(sorted[b]) <= key(sorted[a]));
                assert(key(sorted[b]) != key(sorted[a]));
            }
            lemma_stable_sort_descending(rest, key);
            assert(rest.reverse().reverse() =~= rest);
        },
    }
}

} // verus!
