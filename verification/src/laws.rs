//! The library's laws: properties that relate several store operations,
//! stated over the same spec functions the operations' contracts use and
//! proved once and for all.

use vstd::prelude::*;

use crate::model::eq_except_times;
use crate::model::PromptSummaryV;
use crate::model::PromptV;
use crate::store::new_entry;
use crate::store::summary_before;
use crate::store::update_entry;

verus! {

/// Law: a successful save stores, under the returned identifier, a prompt
/// equal to the input except for its timestamps, so an immediate load of
/// that identifier yields exactly that record. `pre` is the store's map
/// before the save; a store only ever holds a prompt under its own
/// identifier, which is what the premise records.
pub proof fn lemma_save_then_load(pre: Map<Seq<char>, PromptV>, p: PromptV, rid: Seq<char>, now: u64)
    requires
        pre.dom().contains(rid) ==> pre[rid].id == rid,
    ensures
        ({
            let stored = if pre.dom().contains(rid) {
                update_entry(p, pre[rid], now)
            } else {
                new_entry(p, rid, now)
            };
            let post = pre.insert(rid, stored);
            &&& post.dom().contains(rid)
            &&& post[rid] == stored
            &&& eq_except_times(stored, (PromptV { id: rid, ..p }))
        }),
{
}

/// Law: a freshly created entry starts with its creation and update instants
/// equal.
pub proof fn lemma_create_times_equal(p: PromptV, id: Seq<char>, now: u64)
    ensures
        new_entry(p, id, now).created_at == new_entry(p, id, now).updated_at,
{
}

/// Law: delete is a one-time transition: after a successful delete of `id`
/// the store no longer holds `id`, so an immediate second delete of the same
/// identifier finds nothing and fails with `NotFound`.
pub proof fn lemma_delete_twice(pre: Map<Seq<char>, PromptV>, id: Seq<char>)
    ensures
        !pre.remove(id).dom().contains(id),
{
}

/// Law: listings follow recency: among summaries in listing order, one with
/// a strictly later update instant stands strictly earlier.
pub proof fn lemma_listing_recency(rd: Seq<PromptSummaryV>, i: int, j: int)
    requires
        forall|a: int, b: int| 0 <= a < b < rd.len() ==> summary_before(rd[a], rd[b]),
        0 <= i < rd.len(),
        0 <= j < rd.len(),
        rd[j].updated_at > rd[i].updated_at,
    ensures
        j < i,
{
    if i < j {
        assert(summary_before(rd[i], rd[j]));
    }
}

/// Law: updating an existing prompt preserves its creation instant and
/// strictly increases its update instant, whatever the clock reads, as long
/// as the previous instant has room left to grow.
pub proof fn lemma_update_refreshes_times(p: PromptV, prev: PromptV, now: u64)
    requires
        prev.updated_at < u64::MAX,
    ensures
        update_entry(p, prev, now).created_at == prev.created_at,
        update_entry(p, prev, now).updated_at > prev.updated_at,
{
}

/// Law: the update instant never decreases, even once it can no longer grow.
pub proof fn lemma_update_monotonic(p: PromptV, prev: PromptV, now: u64)
    ensures
        update_entry(p, prev, now).updated_at >= prev.updated_at,
{
}

} // verus!
