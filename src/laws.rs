//! Laws that relate classification, the apply pass and rendering across
//! calls.

use vstd::prelude::*;
use crate::album::{Album, distinct_guids, has_guid};
use crate::classify::{Class, class_of, of_class, orphans};
use crate::gallery::synced_at;
use crate::index::{PhotoIndex, indexed_members, lemma_indexed_members_in_map, lemma_photo_map_keys, lemma_photo_map_lookup};
use crate::model::{IndexedPhoto, Photo};
use crate::sync::{DeleteOutcome, ProcessOutcome, apply_deleted, apply_synced, removed_guids};

verus! {

/// The outcome synced a copy of `p`: same guid, same checksum.
pub open spec fn synced_copy(o: ProcessOutcome, p: Photo) -> bool {
    match o {
        ProcessOutcome::Synced(q) => q.guid@ == p.guid@ && q.checksum@ == p.checksum@,
        ProcessOutcome::Failed(_, _) => false,
    }
}

pub open spec fn synced_photo(o: ProcessOutcome) -> IndexedPhoto {
    match o {
        ProcessOutcome::Synced(q) => q,
        ProcessOutcome::Failed(_, _) => arbitrary(),
    }
}

/// The photos a pass sends to workers: the new ones, then the changed ones.
pub open spec fn pending(ps: Seq<Photo>, m: Map<Seq<char>, IndexedPhoto>) -> Seq<Photo> {
    of_class(ps, m, Class::New) + of_class(ps, m, Class::Changed)
}

proof fn lemma_deleted_keys(m: Map<Seq<char>, IndexedPhoto>, dels: Seq<DeleteOutcome>, g: Seq<char>)
    ensures
        apply_deleted(m, dels).contains_key(g) <==> m.contains_key(g) && !removed_guids(dels).contains(g),
        apply_deleted(m, dels).contains_key(g) ==> apply_deleted(m, dels)[g] == m[g],
    decreases dels.len(),
{
    if dels.len() > 0 {
        let d = dels.drop_last();
        lemma_deleted_keys(m, d, g);
        let k = dels.len() - 1;
        assert(dels.last() == dels[k]);
        if removed_guids(d).contains(g) {
            let j = choose|j: int| 0 <= j < d.len() && d[j].error is None && #[trigger] d[j].guid@ == g;
            assert(dels[j] == d[j]);
        }
        if removed_guids(dels).contains(g) {
            let j = choose|j: int| 0 <= j < dels.len() && dels[j].error is None && #[trigger] dels[j].guid@ == g;
            if j < k {
                assert(dels[j] == d[j]);
            }
        }
    }
}

proof fn lemma_synced_untouched(m: Map<Seq<char>, IndexedPhoto>, outs: Seq<ProcessOutcome>, g: Seq<char>)
    requires
        forall|j: int| 0 <= j < outs.len() ==> !#[trigger] synced_at(outs, j, g),
    ensures
        apply_synced(m, outs).contains_key(g) == m.contains_key(g),
        m.contains_key(g) ==> apply_synced(m, outs)[g] == m[g],
    decreases outs.len(),
{
    if outs.len() > 0 {
        let d = outs.drop_last();
        assert forall|j: int| 0 <= j < d.len() implies !#[trigger] synced_at(d, j, g) by {
            assert(d[j] == outs[j]);
            assert(!synced_at(outs, j, g));
        }
        lemma_synced_untouched(m, d, g);
        assert(outs.last() == outs[outs.len() - 1]);
        assert(!synced_at(outs, outs.len() - 1, g));
    }
}

proof fn lemma_synced_last(m: Map<Seq<char>, IndexedPhoto>, outs: Seq<ProcessOutcome>, j: int, g: Seq<char>)
    requires
        0 <= j < outs.len(),
        synced_at(outs, j, g),
        forall|k: int| j < k < outs.len() ==> !#[trigger] synced_at(outs, k, g),
    ensures
        apply_synced(m, outs).contains_key(g),
        apply_synced(m, outs)[g] == synced_photo(outs[j]),
    decreases outs.len(),
{
    let d = outs.drop_last();
    assert(outs.last() == outs[outs.len() - 1]);
    if j < outs.len() - 1 {
        assert(d[j] == outs[j]);
        assert forall|k: int| j < k < d.len() implies !#[trigger] synced_at(d, k, g) by {
            assert(d[k] == outs[k]);
            assert(!synced_at(outs, k, g));
        }
        lemma_synced_last(m, d, j, g);
        assert(!synced_at(outs, outs.len() - 1, g));
    }
}

proof fn lemma_of_class_from(ps: Seq<Photo>, m: Map<Seq<char>, IndexedPhoto>, c: Class, i: int)
    requires
        0 <= i < of_class(ps, m, c).len(),
    ensures
        exists|k: int| 0 <= k < ps.len() && ps[k] == #[trigger] of_class(ps, m, c)[i],
        class_of(m, of_class(ps, m, c)[i]) == c,
    decreases ps.len(),
{
    let d = ps.drop_last();
    let rest = of_class(d, m, c);
    if i < rest.len() {
        lemma_of_class_from(d, m, c, i);
        let k = choose|k: int| 0 <= k < d.len() && d[k] == #[trigger] of_class(d, m, c)[i];
        assert(ps[k] == d[k]);
        if class_of(m, ps.last()) == c {
            assert(of_class(ps, m, c)[i] == rest[i]);
        }
    } else {
        assert(of_class(ps, m, c)[i] == ps.last());
        assert(ps[ps.len() - 1] == ps.last());
    }
}

proof fn lemma_of_class_member(ps: Seq<Photo>, m: Map<Seq<char>, IndexedPhoto>, c: Class, k: int)
    requires
        0 <= k < ps.len(),
        class_of(m, ps[k]) == c,
    ensures
        exists|i: int| 0 <= i < of_class(ps, m, c).len() && #[trigger] of_class(ps, m, c)[i] == ps[k],
    decreases ps.len(),
{
    let d = ps.drop_last();
    let rest = of_class(d, m, c);
    if k < ps.len() - 1 {
        assert(d[k] == ps[k]);
        lemma_of_class_member(d, m, c, k);
        let i = choose|i: int| 0 <= i < rest.len() && #[trigger] rest[i] == d[k];
        if class_of(m, ps.last()) == c {
            assert(of_class(ps, m, c)[i] == rest[i]);
        } else {
            assert(of_class(ps, m, c) == rest);
        }
        assert(of_class(ps, m, c)[i] == ps[k]);
    } else {
        assert(ps[k] == ps.last());
        assert(of_class(ps, m, c) == rest.push(ps.last()));
        assert(of_class(ps, m, c)[rest.len() as int] == ps[k]);
    }
}

/// Pending photos with the same guid are the same album photo, so each
/// guid is pending at most once.
proof fn lemma_pending_distinct(ps: Seq<Photo>, m: Map<Seq<char>, IndexedPhoto>, i: int, j: int)
    requires
        distinct_guids(ps),
        0 <= i < j < pending(ps, m).len(),
    ensures
        pending(ps, m)[i].guid@ != pending(ps, m)[j].guid@,
{
    let nw = of_class(ps, m, Class::New);
    let ch = of_class(ps, m, Class::Changed);
    let pd = pending(ps, m);
    if pd[i].guid@ == pd[j].guid@ {
        let (ci, ii) = if i < nw.len() { (Class::New, i) } else { (Class::Changed, i - nw.len()) };
        let (cj, jj) = if j < nw.len() { (Class::New, j) } else { (Class::Changed, j - nw.len()) };
        lemma_of_class_from(ps, m, ci, ii);
        lemma_of_class_from(ps, m, cj, jj);
        let ki = choose|k: int| 0 <= k < ps.len() && ps[k] == #[trigger] of_class(ps, m, ci)[ii];
        let kj = choose|k: int| 0 <= k < ps.len() && ps[k] == #[trigger] of_class(ps, m, cj)[jj];
        assert(pd[i] == of_class(ps, m, ci)[ii]);
        assert(pd[j] == of_class(ps, m, cj)[jj]);
        assert(ki == kj);
        if ci == cj {
            lemma_of_class_order(ps, m, ci, ii, jj);
        }
    }
}

/// Distinct positions of a class list hold distinct album positions.
proof fn lemma_of_class_order(ps: Seq<Photo>, m: Map<Seq<char>, IndexedPhoto>, c: Class, a: int, b: int)
    requires
        distinct_guids(ps),
        0 <= a < b < of_class(ps, m, c).len(),
    ensures
        of_class(ps, m, c)[a].guid@ != of_class(ps, m, c)[b].guid@,
    decreases ps.len(),
{
    let d = ps.drop_last();
    let rest = of_class(d, m, c);
    assert(distinct_guids(d)) by {
        assert forall|x: int, y: int| 0 <= x < d.len() && 0 <= y < d.len() && x != y implies d[x].guid@ != d[y].guid@ by {
            assert(d[x] == ps[x]);
            assert(d[y] == ps[y]);
        }
    }
    if b < rest.len() {
        lemma_of_class_order(d, m, c, a, b);
        if class_of(m, ps.last()) == c {
            assert(of_class(ps, m, c)[a] == rest[a]);
            assert(of_class(ps, m, c)[b] == rest[b]);
        }
    } else {
        assert(of_class(ps, m, c)[b] == ps.last());
        assert(of_class(ps, m, c)[a] == rest[a]);
        lemma_of_class_from(d, m, c, a);
        let k = choose|k: int| 0 <= k < d.len() && d[k] == #[trigger] of_class(d, m, c)[a];
        assert(ps[k] == d[k]);
        assert(ps[ps.len() - 1] == ps.last());
    }
}

/// After a pass in which every orphan was removed and every new or changed
/// photo was synced from its remote copy, classifying the same album again
/// finds every photo unchanged and no indexed photo outside the album: a
/// second pass has nothing to add, update or delete.
pub proof fn lemma_resync_is_idle(
    album: Album,
    index: PhotoIndex,
    dels: Seq<DeleteOutcome>,
    procs: Seq<ProcessOutcome>,
)
    requires
        album.wf(),
        index.wf(),
        dels.len() == orphans(index.photos@, album.photos@).len(),
        forall|j: int|
            0 <= j < dels.len() ==> (#[trigger] dels[j]).guid@ == orphans(index.photos@, album.photos@)[j]
                && dels[j].error is None,
        procs.len() == pending(album.photos@, index@).len(),
        forall|j: int| 0 <= j < procs.len() ==> synced_copy(#[trigger] procs[j], pending(album.photos@, index@)[j]),
    ensures
        ({
            let m1 = apply_synced(apply_deleted(index@, dels), procs);
            &&& forall|i: int| 0 <= i < album.photos.len() ==> class_of(m1, #[trigger] album.photos@[i]) == Class::Unchanged
            &&& forall|g: Seq<char>| #[trigger] m1.contains_key(g) ==> has_guid(album.photos@, g)
        }),
{
    let ps = album.photos@;
    let m = index@;
    let pd = pending(ps, m);
    let m0 = apply_deleted(m, dels);
    let m1 = apply_synced(m0, procs);
    let nw = of_class(ps, m, Class::New);
    lemma_photo_map_lookup(index.photos@);
    crate::classify::lemma_classification_partitions(album, index);
    assert forall|j: int, g: Seq<char>| 0 <= j < procs.len() && #[trigger] synced_at(procs, j, g) implies pd[j].guid@ == g by {
        assert(synced_copy(procs[j], pd[j]));
    }
    assert forall|i: int| 0 <= i < album.photos.len() implies class_of(m1, #[trigger] album.photos@[i]) == Class::Unchanged by {
        let p = ps[i];
        let g = p.guid@;
        let c = class_of(m, p);
        if c == Class::Unchanged {
            lemma_deleted_keys(m, dels, g);
            if removed_guids(dels).contains(g) {
                let j = choose|j: int| 0 <= j < dels.len() && dels[j].error is None && #[trigger] dels[j].guid@ == g;
                let orph = orphans(index.photos@, ps);
                assert(orph.contains(orph[j]));
                assert(!has_guid(ps, g));
            }
            assert forall|j: int| 0 <= j < procs.len() implies !#[trigger] synced_at(procs, j, g) by {
                if synced_at(procs, j, g) {
                    let q = pd[j];
                    let (cq, jq) = if j < nw.len() { (Class::New, j) } else { (Class::Changed, j - nw.len()) };
                    assert(q == of_class(ps, m, cq)[jq]);
                    lemma_of_class_from(ps, m, cq, jq);
                    let k = choose|k: int| 0 <= k < ps.len() && ps[k] == #[trigger] of_class(ps, m, cq)[jq];
                    assert(ps[k].guid@ == ps[i].guid@);
                }
            }
            lemma_synced_untouched(m0, procs, g);
        } else {
            lemma_of_class_member(ps, m, c, i);
            let jj = choose|x: int| 0 <= x < of_class(ps, m, c).len() && #[trigger] of_class(ps, m, c)[x] == ps[i];
            let j = if c == Class::New { jj } else { nw.len() + jj };
            assert(pd[j] == p);
            assert(synced_copy(procs[j], p));
            assert(synced_at(procs, j, g));
            assert forall|k: int| j < k < procs.len() implies !#[trigger] synced_at(procs, k, g) by {
                if synced_at(procs, k, g) {
                    lemma_pending_distinct(ps, m, j, k);
                }
            }
            lemma_synced_last(m0, procs, j, g);
        }
    }
    assert forall|g: Seq<char>| #[trigger] m1.contains_key(g) implies has_guid(ps, g) by {
        crate::sync::lemma_apply_synced_keys(m0, procs, g);
        if exists|j: int| 0 <= j < procs.len() && #[trigger] synced_at(procs, j, g) {
            let j = choose|j: int| 0 <= j < procs.len() && #[trigger] synced_at(procs, j, g);
            let (cq, jq) = if j < nw.len() { (Class::New, j) } else { (Class::Changed, j - nw.len()) };
            assert(pd[j] == of_class(ps, m, cq)[jq]);
            lemma_of_class_from(ps, m, cq, jq);
            let k = choose|k: int| 0 <= k < ps.len() && ps[k] == #[trigger] of_class(ps, m, cq)[jq];
            assert(ps[k].guid@ == g);
        } else {
            lemma_deleted_keys(m, dels, g);
            if !has_guid(ps, g) {
                let orph = orphans(index.photos@, ps);
                assert(orph.contains(g));
                let j = choose|j: int| 0 <= j < orph.len() && orph[j] == g;
                assert(dels[j].guid@ == g);
                assert(removed_guids(dels).contains(g));
            }
        }
    }
}

/// A guid that is not indexed is listed in no gallery's page: the photos a
/// gallery page enumerates are all indexed under their own guids.
pub proof fn lemma_unindexed_not_rendered(index: PhotoIndex, g: Seq<char>)
    requires
        index.wf(),
        !index@.contains_key(g),
    ensures
        forall|k: int, j: int|
            0 <= k < index.galleries.len() && 0 <= j < indexed_members(index.galleries@[k].members(), index@).len()
                ==> (#[trigger] indexed_members(index.galleries@[k].members(), index@)[j]).guid@ != g,
{
    lemma_photo_map_keys(index.photos@);
    assert forall|k: int, j: int|
        0 <= k < index.galleries.len() && 0 <= j < indexed_members(index.galleries@[k].members(), index@).len()
            implies (#[trigger] indexed_members(index.galleries@[k].members(), index@)[j]).guid@ != g by {
        lemma_indexed_members_in_map(index.galleries@[k].members(), index@);
    }
}

} // verus!
