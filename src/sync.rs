//! The sequential pass that applies a batch of per-photo outcomes to the
//! index once all concurrent work of a sync pass has joined.

use vstd::prelude::*;
use crate::index::{PhotoIndex, gallery_pruned};
use crate::model::{IndexedPhoto, SyncResult, views, Gallery};

verus! {

/// What a worker hands back for one new or changed photo.
pub enum ProcessOutcome {
    /// The photo was downloaded and its index entry built.
    Synced(IndexedPhoto),
    /// The guid and the reason the photo could not be synced.
    Failed(String, String),
}

/// What a worker hands back for one photo whose files it removed.
pub struct DeleteOutcome {
    pub guid: String,
    /// The reason removal failed, if it did.
    pub error: Option<String>,
}

/// The index after the successful outcomes are written in order.
pub open spec fn apply_synced(m: Map<Seq<char>, IndexedPhoto>, outs: Seq<ProcessOutcome>) -> Map<
    Seq<char>,
    IndexedPhoto,
>
    decreases outs.len(),
{
    if outs.len() == 0 {
        m
    } else {
        let m0 = apply_synced(m, outs.drop_last());
        match outs.last() {
            ProcessOutcome::Synced(p) => m0.insert(p.guid@, p),
            ProcessOutcome::Failed(_, _) => m0,
        }
    }
}

/// The report for one outcome, given the index just before it is applied.
pub open spec fn synced_result(before: Map<Seq<char>, IndexedPhoto>, o: ProcessOutcome) -> SyncResult {
    match o {
        ProcessOutcome::Synced(p) => if before.contains_key(p.guid@) {
            SyncResult::Updated(p.guid)
        } else {
            SyncResult::Added(p.guid)
        },
        ProcessOutcome::Failed(g, e) => SyncResult::Failed(g, e),
    }
}

/// The reports for a batch of outcomes, in order.
pub open spec fn synced_results(m: Map<Seq<char>, IndexedPhoto>, outs: Seq<ProcessOutcome>) -> Seq<
    SyncResult,
>
    decreases outs.len(),
{
    if outs.len() == 0 {
        Seq::empty()
    } else {
        synced_results(m, outs.drop_last()).push(
            synced_result(apply_synced(m, outs.drop_last()), outs.last()),
        )
    }
}

/// The index after the successful removals are applied in order.
pub open spec fn apply_deleted(m: Map<Seq<char>, IndexedPhoto>, outs: Seq<DeleteOutcome>) -> Map<
    Seq<char>,
    IndexedPhoto,
>
    decreases outs.len(),
{
    if outs.len() == 0 {
        m
    } else {
        let m0 = apply_deleted(m, outs.drop_last());
        if outs.last().error is None {
            m0.remove(outs.last().guid@)
        } else {
            m0
        }
    }
}

pub open spec fn deleted_result(o: DeleteOutcome) -> SyncResult {
    match o.error {
        None => SyncResult::Deleted(o.guid),
        Some(e) => SyncResult::Failed(o.guid, e),
    }
}

/// The guids of the successful removals.
pub open spec fn removed_guids(outs: Seq<DeleteOutcome>) -> Set<Seq<char>> {
    Set::new(|g: Seq<char>| exists|j: int| 0 <= j < outs.len() && outs[j].error is None && #[trigger] outs[j].guid@ == g)
}

/// Writes each synced photo into the index and reports it as added when
/// its guid was not indexed just before, updated otherwise; failures leave
/// the index alone and are reported as they came.
pub fn apply_sync_outcomes(index: &mut PhotoIndex, outcomes: Vec<ProcessOutcome>) -> (results: Vec<
    SyncResult,
>)
    requires
        old(index).wf(),
    ensures
        final(index).wf(),
        final(index)@ == apply_synced(old(index)@, outcomes@),
        final(index).galleries == old(index).galleries,
        results@ == synced_results(old(index)@, outcomes@),
{
    let ghost outs = outcomes@;
    let ghost m = index@;
    let mut results: Vec<SyncResult> = Vec::new();
    let mut rest = outcomes;
    let ghost n = outs.len();
    while rest.len() > 0
        invariant
            index.wf(),
            rest.len() <= n,
            n == outs.len(),
            rest@ == outs.subrange(n - rest.len(), n as int),
            index@ == apply_synced(m, outs.subrange(0, n - rest.len())),
            index.galleries == old(index).galleries,
            results@ == synced_results(m, outs.subrange(0, n - rest.len())),
        decreases rest.len(),
    {
        let ghost done = n - rest.len();
        let o = rest.remove(0);
        assert(o == outs[done]);
        assert(outs.subrange(0, done + 1).drop_last() =~= outs.subrange(0, done));
        assert(outs.subrange(0, done + 1).last() == outs[done]);
        match o {
            ProcessOutcome::Synced(p) => {
                let is_new = index.find_photo(p.guid.as_str()).is_none();
                let g = p.guid.clone();
                index.add_or_update_photo(p);
                if is_new {
                    results.push(SyncResult::Added(g));
                } else {
                    results.push(SyncResult::Updated(g));
                }
            },
            ProcessOutcome::Failed(g, e) => {
                results.push(SyncResult::Failed(g, e));
            },
        }
    }
    assert(outs.subrange(0, n as int) =~= outs);
    results
}

proof fn lemma_pruned_keeps_out(before: Gallery, after: Gallery, g: Seq<char>, x: Seq<char>)
    requires
        gallery_pruned(before, after, g),
        before.wf(),
    ensures
        after.wf(),
        after.members().contains(x) ==> before.members().contains(x),
{
    let b = before.photos@;
    if views(b).contains(g) {
        let i = choose|i: int|
            0 <= i < b.len() && b[i]@ == g && (forall|j: int| 0 <= j < i ==> b[j]@ != g)
                && after.photos@ == b.remove(i);
        assert(after.members() =~= before.members().remove(i));
        if after.members().contains(x) {
            let k = choose|k: int| 0 <= k < after.members().len() && after.members()[k] == x;
            let k2 = if k < i { k } else { k + 1 };
            assert(before.members()[k2] == x);
        }
        assert forall|a: int, c: int|
            0 <= a < after.members().len() && 0 <= c < after.members().len() && a != c implies after.members()[a]
            != after.members()[c] by {
            let a2 = if a < i { a } else { a + 1 };
            let c2 = if c < i { c } else { c + 1 };
            assert(after.members()[a] == before.members()[a2]);
            assert(after.members()[c] == before.members()[c2]);
        }
    } else {
        assert(after.members() == before.members());
    }
}

/// Removes each successfully deleted photo from the index and from every
/// gallery's member list; failed removals leave the index alone.
pub fn apply_delete_outcomes(index: &mut PhotoIndex, outcomes: Vec<DeleteOutcome>) -> (results: Vec<
    SyncResult,
>)
    requires
        old(index).wf(),
    ensures
        final(index).wf(),
        final(index)@ == apply_deleted(old(index)@, outcomes@),
        final(index).galleries.len() == old(index).galleries.len(),
        forall|k: int, g: Seq<char>|
            0 <= k < final(index).galleries.len() && removed_guids(outcomes@).contains(g)
                ==> !(#[trigger] final(index).galleries@[k].members().contains(g)),
        results@.len() == outcomes@.len(),
        forall|j: int| 0 <= j < outcomes@.len() ==> #[trigger] results@[j] == deleted_result(outcomes@[j]),
{
    let ghost outs = outcomes@;
    let ghost m = index@;
    let ghost n = outs.len();
    let ghost g0 = index.galleries@.len();
    let mut results: Vec<SyncResult> = Vec::new();
    let mut rest = outcomes;
    while rest.len() > 0
        invariant
            index.wf(),
            rest.len() <= n,
            n == outs.len(),
            rest@ == outs.subrange(n - rest.len(), n as int),
            index@ == apply_deleted(m, outs.subrange(0, n - rest.len())),
            index.galleries.len() == g0,
            forall|k: int, g: Seq<char>|
                0 <= k < index.galleries.len() && removed_guids(outs.subrange(0, n - rest.len())).contains(g)
                    ==> !(#[trigger] index.galleries@[k].members().contains(g)),
            results@.len() == n - rest.len(),
            forall|j: int| 0 <= j < results@.len() ==> #[trigger] results@[j] == deleted_result(outs[j]),
        decreases rest.len(),
    {
        let ghost done = n - rest.len();
        let ghost before = *index;
        let o = rest.remove(0);
        assert(o == outs[done]);
        let ghost prev = outs.subrange(0, done);
        let ghost next = outs.subrange(0, done + 1);
        assert(next.drop_last() =~= prev);
        assert(next.last() == outs[done]);
        match o.error {
            None => {
                index.remove_photo(o.guid.as_str());
                assert forall|k: int, g: Seq<char>|
                    0 <= k < index.galleries.len() && removed_guids(next).contains(g)
                        implies !(#[trigger] index.galleries@[k].members().contains(g)) by {
                    let j = choose|j: int| 0 <= j < next.len() && next[j].error is None && #[trigger] next[j].guid@ == g;
                    if g != o.guid@ {
                        assert(prev[j] == next[j]);
                        assert(removed_guids(prev).contains(g));
                        lemma_pruned_keeps_out(before.galleries@[k], index.galleries@[k], o.guid@, g);
                    }
                }
                results.push(SyncResult::Deleted(o.guid));
            },
            Some(e) => {
                assert forall|g: Seq<char>| removed_guids(next).contains(g) implies removed_guids(prev).contains(g) by {
                    let j = choose|j: int| 0 <= j < next.len() && next[j].error is None && #[trigger] next[j].guid@ == g;
                    assert(j < done);
                    assert(prev[j] == next[j]);
                }
                results.push(SyncResult::Failed(o.guid, e));
            },
        }
    }
    assert(outs.subrange(0, n as int) =~= outs);
    results
}

/// The number of failed outcomes.
pub open spec fn failures(outs: Seq<ProcessOutcome>) -> nat
    decreases outs.len(),
{
    if outs.len() == 0 {
        0
    } else {
        failures(outs.drop_last()) + if outs.last() is Failed {
            1nat
        } else {
            0nat
        }
    }
}

/// The number of reports of each kind.
pub open spec fn count_failed(rs: Seq<SyncResult>) -> nat
    decreases rs.len(),
{
    if rs.len() == 0 {
        0
    } else {
        count_failed(rs.drop_last()) + if rs.last() is Failed {
            1nat
        } else {
            0nat
        }
    }
}

pub open spec fn count_added(rs: Seq<SyncResult>) -> nat
    decreases rs.len(),
{
    if rs.len() == 0 {
        0
    } else {
        count_added(rs.drop_last()) + if rs.last() is Added {
            1nat
        } else {
            0nat
        }
    }
}

/// The synced guids are new to the index and pairwise distinct.
pub open spec fn fresh_and_distinct(m: Map<Seq<char>, IndexedPhoto>, outs: Seq<ProcessOutcome>) -> bool {
    &&& forall|j: int, g: Seq<char>| 0 <= j < outs.len() && #[trigger] crate::gallery::synced_at(outs, j, g) ==> !m.contains_key(g)
    &&& forall|i: int, j: int, g: Seq<char>|
        0 <= i < j < outs.len() && #[trigger] crate::gallery::synced_at(outs, i, g) ==> !#[trigger] crate::gallery::synced_at(outs, j, g)
}

/// A key of the applied map was there before or was synced.
pub proof fn lemma_apply_synced_keys(m: Map<Seq<char>, IndexedPhoto>, outs: Seq<ProcessOutcome>, g: Seq<char>)
    ensures
        apply_synced(m, outs).contains_key(g) <==> m.contains_key(g) || exists|j: int|
            0 <= j < outs.len() && #[trigger] crate::gallery::synced_at(outs, j, g),
    decreases outs.len(),
{
    if outs.len() > 0 {
        let d = outs.drop_last();
        let k = outs.len() - 1;
        lemma_apply_synced_keys(m, d, g);
        assert(outs.last() == outs[k]);
        if crate::gallery::synced_at(outs, k, g) {
            assert(apply_synced(m, outs).contains_key(g));
        }
        if exists|j: int| 0 <= j < d.len() && #[trigger] crate::gallery::synced_at(d, j, g) {
            let j = choose|j: int| 0 <= j < d.len() && #[trigger] crate::gallery::synced_at(d, j, g);
            assert(d[j] == outs[j]);
            assert(crate::gallery::synced_at(outs, j, g));
        }
        if exists|j: int| 0 <= j < outs.len() && #[trigger] crate::gallery::synced_at(outs, j, g) {
            let j = choose|j: int| 0 <= j < outs.len() && #[trigger] crate::gallery::synced_at(outs, j, g);
            if j < d.len() {
                assert(d[j] == outs[j]);
                assert(crate::gallery::synced_at(d, j, g));
            }
        }
    }
}

proof fn lemma_batch_counts(m: Map<Seq<char>, IndexedPhoto>, outs: Seq<ProcessOutcome>)
    requires
        m.dom().finite(),
        fresh_and_distinct(m, outs),
    ensures
        apply_synced(m, outs).dom().finite(),
        apply_synced(m, outs).dom().len() == m.dom().len() + outs.len() - failures(outs),
        count_failed(synced_results(m, outs)) == failures(outs),
        count_added(synced_results(m, outs)) == outs.len() - failures(outs),
        synced_results(m, outs).len() == outs.len(),
        failures(outs) <= outs.len(),
    decreases outs.len(),
{
    if outs.len() > 0 {
        let d = outs.drop_last();
        assert(fresh_and_distinct(m, d)) by {
            assert forall|j: int, g: Seq<char>| 0 <= j < d.len() && #[trigger] crate::gallery::synced_at(d, j, g) implies !m.contains_key(g) by {
                assert(d[j] == outs[j]);
                assert(crate::gallery::synced_at(outs, j, g));
            }
            assert forall|i: int, j: int, g: Seq<char>|
                0 <= i < j < d.len() && #[trigger] crate::gallery::synced_at(d, i, g) implies !#[trigger] crate::gallery::synced_at(d, j, g) by {
                assert(d[j] == outs[j]);
                assert(d[i] == outs[i]);
                assert(crate::gallery::synced_at(outs, i, g));
                assert(!crate::gallery::synced_at(outs, j, g));
            }
        }
        lemma_batch_counts(m, d);
        let rs = synced_results(m, outs);
        assert(rs.drop_last() == synced_results(m, d));
        match outs.last() {
            ProcessOutcome::Synced(p) => {
                let g = p.guid@;
                let k = outs.len() - 1;
                assert(crate::gallery::synced_at(outs, k, g));
                lemma_apply_synced_keys(m, d, g);
                if exists|j: int| 0 <= j < d.len() && #[trigger] crate::gallery::synced_at(d, j, g) {
                    let j = choose|j: int| 0 <= j < d.len() && #[trigger] crate::gallery::synced_at(d, j, g);
                    assert(d[j] == outs[j]);
                    assert(crate::gallery::synced_at(outs, j, g));
                }
                assert(!apply_synced(m, d).contains_key(g));
            },
            ProcessOutcome::Failed(_, _) => {},
        }
    }
}

/// When exactly one outcome of a batch of new, distinct photos failed, the
/// pass reports exactly one failure and N-1 additions, and the index gains
/// N-1 entries.
pub proof fn lemma_partial_failure(index: PhotoIndex, outs: Seq<ProcessOutcome>)
    requires
        index.wf(),
        fresh_and_distinct(index@, outs),
        failures(outs) == 1,
    ensures
        count_failed(synced_results(index@, outs)) == 1,
        count_added(synced_results(index@, outs)) == outs.len() - 1,
        apply_synced(index@, outs).dom().len() == index@.dom().len() + outs.len() - 1,
{
    crate::index::lemma_photo_map_len(index.photos@);
    lemma_batch_counts(index@, outs);
}

} // verus!
