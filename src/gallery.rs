//! Gallery mode: one gallery per sync target, reused by name, whose
//! membership mirrors the album.

use vstd::prelude::*;
use crate::album::{Album, copy_photo, has_guid};
use crate::classify::Class;
use crate::index::{PhotoIndex, new_uuid};
use crate::model::{Gallery, IndexedPhoto, Photo, SyncResult, views};
use crate::index::member_removed;
use crate::sync::{ProcessOutcome, apply_synced};
use crate::text::{has_prefix, str_eq};

verus! {

/// What the slug of a name is.
pub uninterp spec fn slug_of(name: Seq<char>) -> Seq<char>;

/// Relies on slugify's `slugify(name, "", "-", None)`: the URL slug of a
/// name, a function of the name alone.
#[verifier::external_body]
pub fn slugify_name(name: &str) -> (r: String)
    ensures
        r@ == slug_of(name@),
{
    slugify::slugify(name, "", "-", None)
}

/// The gallery name a target uses: the album's name when the configured
/// name is the default `Gallery`.
pub fn effective_gallery_name(configured: &str, album_name: &str) -> (r: String)
    ensures
        r@ == (if configured@ == "Gallery"@ {
            album_name@
        } else {
            configured@
        }),
{
    if str_eq(configured, "Gallery") {
        album_name.to_owned()
    } else {
        configured.to_owned()
    }
}

/// The first gallery of the index with the given display name.
pub fn find_gallery_by_name(index: &PhotoIndex, name: &str) -> (r: Option<usize>)
    ensures
        match r {
            Some(k) => k < index.galleries.len() && index.galleries@[k as int].name@ == name@
                && forall|j: int| 0 <= j < k ==> #[trigger] index.galleries@[j].name@ != name@,
            None => forall|j: int|
                0 <= j < index.galleries.len() ==> #[trigger] index.galleries@[j].name@ != name@,
        },
{
    let mut k: usize = 0;
    while k < index.galleries.len()
        invariant
            k <= index.galleries.len(),
            forall|j: int| 0 <= j < k ==> #[trigger] index.galleries@[j].name@ != name@,
        decreases index.galleries.len() - k,
    {
        if str_eq(index.galleries[k].name.as_str(), name) {
            return Some(k);
        }
        k = k + 1;
    }
    None
}

/// The id of the gallery named `name`, or a fresh `gallery_<uuid>` id when
/// there is none.
pub fn get_or_create_gallery_id(index: &PhotoIndex, name: &str) -> (r: String)
    ensures
        match find_by_name_spec(index.galleries@, name@) {
            Some(k) => r == index.galleries@[k].id,
            None => has_prefix(r@, "gallery_"@) && r@.len() == 44,
        },
{
    match find_gallery_by_name(index, name) {
        Some(k) => {
            proof {
                lemma_find_by_name(index.galleries@, name@, k as int);
            }
            index.galleries[k].id.clone()
        },
        None => {
            proof {
                lemma_find_by_name_none(index.galleries@, name@);
            }
            let mut id = String::from_str("gallery_");
            let u = new_uuid();
            id.append(u.as_str());
            proof {
                reveal_strlit("gallery_");
                assert(id@.subrange(0, 8) =~= "gallery_"@);
            }
            id
        },
    }
}

/// The position of the first gallery with the given name.
pub open spec fn find_by_name_spec(gs: Seq<Gallery>, name: Seq<char>) -> Option<int>
    decreases gs.len(),
{
    if gs.len() == 0 {
        None
    } else {
        match find_by_name_spec(gs.drop_last(), name) {
            Some(k) => Some(k),
            None => if gs.last().name@ == name {
                Some(gs.len() - 1)
            } else {
                None
            },
        }
    }
}

proof fn lemma_find_by_name(gs: Seq<Gallery>, name: Seq<char>, k: int)
    requires
        0 <= k < gs.len(),
        gs[k].name@ == name,
        forall|j: int| 0 <= j < k ==> #[trigger] gs[j].name@ != name,
    ensures
        find_by_name_spec(gs, name) == Some(k),
    decreases gs.len(),
{
    if k < gs.len() - 1 {
        lemma_find_by_name(gs.drop_last(), name, k);
    } else {
        lemma_find_by_name_none(gs.drop_last(), name);
    }
}

proof fn lemma_find_by_name_none(gs: Seq<Gallery>, name: Seq<char>)
    requires
        forall|j: int| 0 <= j < gs.len() ==> #[trigger] gs[j].name@ != name,
    ensures
        find_by_name_spec(gs, name) == None::<int>,
    decreases gs.len(),
{
    if gs.len() > 0 {
        lemma_find_by_name_none(gs.drop_last(), name);
    }
}

/// How an album photo stands against the index and the gallery: new when
/// not indexed, unchanged when indexed with the same checksum and already
/// a member, to be updated otherwise.
pub open spec fn gallery_class(m: Map<Seq<char>, IndexedPhoto>, members: Seq<Seq<char>>, p: Photo) -> Class {
    if !m.contains_key(p.guid@) {
        Class::New
    } else if m[p.guid@].checksum@ == p.checksum@ && members.contains(p.guid@) {
        Class::Unchanged
    } else {
        Class::Changed
    }
}

pub open spec fn of_gallery_class(
    ps: Seq<Photo>,
    m: Map<Seq<char>, IndexedPhoto>,
    members: Seq<Seq<char>>,
    c: Class,
) -> Seq<Photo>
    decreases ps.len(),
{
    if ps.len() == 0 {
        Seq::empty()
    } else {
        let rest = of_gallery_class(ps.drop_last(), m, members, c);
        if gallery_class(m, members, ps.last()) == c {
            rest.push(ps.last())
        } else {
            rest
        }
    }
}

/// The members that the album no longer has, in member order.
pub open spec fn stale_members(members: Seq<Seq<char>>, album: Seq<Photo>) -> Seq<Seq<char>>
    decreases members.len(),
{
    if members.len() == 0 {
        Seq::empty()
    } else {
        let rest = stale_members(members.drop_last(), album);
        if has_guid(album, members.last()) {
            rest
        } else {
            rest.push(members.last())
        }
    }
}

/// The work a gallery sync pass has to do.
pub struct GalleryPlan {
    pub to_add: Vec<Photo>,
    pub to_update: Vec<Photo>,
    pub unchanged: Vec<String>,
    pub to_remove: Vec<String>,
}

/// Sorts the album's photos into new, to be updated and unchanged for the
/// gallery, and lists the members the album no longer has.
pub fn plan_gallery(album: &Album, index: &PhotoIndex, gallery: &Gallery) -> (r: GalleryPlan)
    requires
        index.wf(),
    ensures
        r.to_add@ == of_gallery_class(album.photos@, index@, gallery.members(), Class::New),
        r.to_update@ == of_gallery_class(album.photos@, index@, gallery.members(), Class::Changed),
        views(r.unchanged@) == crate::classify::guids(
            of_gallery_class(album.photos@, index@, gallery.members(), Class::Unchanged),
        ),
        views(r.to_remove@) == stale_members(gallery.members(), album.photos@),
{
    let ghost m = index@;
    let ghost ms = gallery.members();
    let ghost ps = album.photos@;
    let mut to_add: Vec<Photo> = Vec::new();
    let mut to_update: Vec<Photo> = Vec::new();
    let mut unchanged: Vec<String> = Vec::new();
    let mut i: usize = 0;
    while i < album.photos.len()
        invariant
            i <= album.photos.len(),
            ps == album.photos@,
            m == index@,
            ms == gallery.members(),
            index.wf(),
            to_add@ == of_gallery_class(ps.subrange(0, i as int), m, ms, Class::New),
            to_update@ == of_gallery_class(ps.subrange(0, i as int), m, ms, Class::Changed),
            views(unchanged@) == crate::classify::guids(
                of_gallery_class(ps.subrange(0, i as int), m, ms, Class::Unchanged),
            ),
        decreases album.photos.len() - i,
    {
        let p = &album.photos[i];
        assert(ps.subrange(0, i + 1).drop_last() =~= ps.subrange(0, i as int));
        assert(ps.subrange(0, i + 1).last() == ps[i as int]);
        match index.find_photo(p.guid.as_str()) {
            None => {
                to_add.push(copy_photo(p));
            },
            Some(k) => {
                let member = crate::index::position_of(&gallery.photos, p.guid.as_str());
                if str_eq(index.photos[k].checksum.as_str(), p.checksum.as_str()) && member.is_some() {
                    proof {
                        let w = member.unwrap();
                        assert(ms[w as int] == p.guid@);
                    }
                    let ghost before = unchanged@;
                    unchanged.push(p.guid.clone());
                    assert(views(unchanged@) =~= views(before).push(p.guid@));
                    assert(crate::classify::guids(of_gallery_class(ps.subrange(0, i + 1), m, ms, Class::Unchanged))
                        =~= crate::classify::guids(of_gallery_class(ps.subrange(0, i as int), m, ms, Class::Unchanged)).push(p.guid@));
                } else {
                    to_update.push(copy_photo(p));
                }
            },
        }
        i = i + 1;
    }
    assert(ps.subrange(0, ps.len() as int) =~= ps);
    let mut to_remove: Vec<String> = Vec::new();
    let mut j: usize = 0;
    while j < gallery.photos.len()
        invariant
            j <= gallery.photos.len(),
            ms == gallery.members(),
            ps == album.photos@,
            views(to_remove@) == stale_members(ms.subrange(0, j as int), ps),
        decreases gallery.photos.len() - j,
    {
        assert(ms.subrange(0, j + 1).drop_last() =~= ms.subrange(0, j as int));
        assert(ms.subrange(0, j + 1).last() == gallery.photos@[j as int]@);
        match album.find(gallery.photos[j].as_str()) {
            Some(_) => {},
            None => {
                let ghost before = to_remove@;
                to_remove.push(gallery.photos[j].clone());
                assert(views(to_remove@) =~= views(before).push(ms[j as int]));
            },
        }
        j = j + 1;
    }
    assert(ms.subrange(0, ms.len() as int) =~= ms);
    GalleryPlan { to_add, to_update, unchanged, to_remove }
}

/// The position of the gallery with id `id`, created with the given name,
/// the name's slug and the description when the index has none.
pub fn ensure_gallery(index: &mut PhotoIndex, id: &str, name: &str, description: &Option<String>) -> (k: usize)
    requires
        old(index).wf(),
    ensures
        final(index).wf(),
        final(index)@ == old(index)@,
        k < final(index).galleries.len(),
        final(index).galleries@[k as int].id@ == id@,
        match old(index).find_gallery_spec(id@) {
            Some(j) => j == k && final(index).galleries@ == old(index).galleries@,
            None => {
                let g = final(index).galleries@[k as int];
                &&& final(index).galleries@ == old(index).galleries@.push(g)
                &&& g.name@ == name@
                &&& g.slug@ == slug_of(name@)
                &&& crate::geocode::opt_view(g.description) == crate::geocode::opt_view(*description)
                &&& g.photos@.len() == 0
            },
        },
{
    match index.find_gallery(id) {
        Some(k) => {
            proof {
                index.lemma_find_gallery_spec(k as int);
            }
            k
        },
        None => {
            proof {
                index.lemma_find_gallery_spec_none(id@);
            }
            let desc = match description {
                Some(d) => Some(d.clone()),
                None => None,
            };
            let gallery = Gallery::new(id.to_owned(), name.to_owned(), slugify_name(name), desc);
            index.add_or_update_gallery(gallery);
            let k = index.galleries.len() - 1;
            k
        },
    }
}

/// The report for an outcome of gallery mode: added or updated as the
/// list it came in says.
pub open spec fn marked(o: ProcessOutcome, updated: bool) -> SyncResult {
    match o {
        ProcessOutcome::Synced(p) => if updated {
            SyncResult::Updated(p.guid)
        } else {
            SyncResult::Added(p.guid)
        },
        ProcessOutcome::Failed(g, e) => SyncResult::Failed(g, e),
    }
}

/// Outcome `j` synced a photo with guid `g`.
pub open spec fn synced_at(outs: Seq<ProcessOutcome>, j: int, g: Seq<char>) -> bool {
    match outs[j] {
        ProcessOutcome::Synced(p) => p.guid@ == g,
        ProcessOutcome::Failed(_, _) => false,
    }
}

/// The guids of the synced outcomes.
pub open spec fn synced_guids(outs: Seq<ProcessOutcome>) -> Set<Seq<char>> {
    Set::new(
        |g: Seq<char>|
            exists|j: int| 0 <= j < outs.len() && #[trigger] synced_at(outs, j, g),
    )
}

proof fn lemma_member_removed(before: Seq<String>, after: Seq<String>, g: Seq<char>, x: Seq<char>)
    requires
        member_removed_wf(before, after, g),
    ensures
        !views(after).contains(g),
        x != g ==> (views(after).contains(x) <==> views(before).contains(x)),
        views(after).no_duplicates(),
{
    if views(before).contains(g) {
        let i = choose|i: int|
            0 <= i < before.len() && before[i]@ == g && (forall|j: int| 0 <= j < i ==> before[j]@ != g)
                && after == before.remove(i);
        assert(views(after) =~= views(before).remove(i));
        assert(views(before)[i] == g);
        if views(after).contains(x) {
            let k = choose|k: int| 0 <= k < views(after).len() && views(after)[k] == x;
            let k2 = if k < i { k } else { k + 1 };
            assert(views(before)[k2] == x);
        }
        if x != g && views(before).contains(x) {
            let k = choose|k: int| 0 <= k < views(before).len() && views(before)[k] == x;
            assert(k != i);
            let k2 = if k < i { k } else { k - 1 };
            assert(views(after)[k2] == x);
        }
        if views(after).contains(g) {
            let k = choose|k: int| 0 <= k < views(after).len() && views(after)[k] == g;
            let k2 = if k < i { k } else { k + 1 };
            assert(views(before)[k2] == g);
        }
        assert forall|a: int, c: int|
            0 <= a < views(after).len() && 0 <= c < views(after).len() && a != c implies views(after)[a]
            != views(after)[c] by {
            let a2 = if a < i { a } else { a + 1 };
            let c2 = if c < i { c } else { c + 1 };
            assert(views(after)[a] == views(before)[a2]);
            assert(views(after)[c] == views(before)[c2]);
        }
    } else {
        assert(views(after) == views(before));
    }
}

pub open spec fn member_removed_wf(before: Seq<String>, after: Seq<String>, g: Seq<char>) -> bool {
    &&& crate::index::member_removed(before, after, g)
    &&& views(before).no_duplicates()
}

/// Applies a gallery pass: synced photos are written into the index and
/// become members of gallery `k`; removed guids leave its member list but
/// stay indexed. Reports come as added, updated, deleted, then unchanged.
pub fn apply_gallery_outcomes(
    index: &mut PhotoIndex,
    k: usize,
    added: Vec<ProcessOutcome>,
    updated: Vec<ProcessOutcome>,
    removed: Vec<String>,
    unchanged: Vec<String>,
) -> (results: Vec<SyncResult>)
    requires
        old(index).wf(),
        k < old(index).galleries.len(),
    ensures
        final(index).wf(),
        final(index)@ == apply_synced(apply_synced(old(index)@, added@), updated@),
        final(index).galleries.len() == old(index).galleries.len(),
        forall|j: int|
            0 <= j < final(index).galleries.len() && j != k ==> #[trigger] final(index).galleries@[j]
                == old(index).galleries@[j],
        final(index).galleries@[k as int].id == old(index).galleries@[k as int].id,
        final(index).galleries@[k as int].name == old(index).galleries@[k as int].name,
        forall|g: Seq<char>|
            #[trigger] final(index).galleries@[k as int].members().contains(g) <==> ((old(
                index,
            ).galleries@[k as int].members().contains(g) || synced_guids(added@).contains(g)
                || synced_guids(updated@).contains(g)) && !views(removed@).contains(g)),
        results@.len() == added@.len() + updated@.len() + removed@.len() + unchanged@.len(),
        forall|j: int| 0 <= j < added@.len() ==> #[trigger] results@[j] == marked(added@[j], false),
        forall|j: int|
            0 <= j < updated@.len() ==> #[trigger] results@[added@.len() + j] == marked(updated@[j], true),
        forall|j: int|
            0 <= j < removed@.len() ==> #[trigger] results@[added@.len() + updated@.len() + j]
                == SyncResult::Deleted(removed@[j]),
        forall|j: int|
            0 <= j < unchanged@.len() ==> #[trigger] results@[added@.len() + updated@.len()
                + removed@.len() + j] == SyncResult::Unchanged(unchanged@[j]),
{
    let ghost a_outs = added@;
    let ghost u_outs = updated@;
    let ghost m0 = index@;
    let mut results: Vec<SyncResult> = Vec::new();
    let mut fresh: Vec<String> = Vec::new();
    let mut rest = added;
    let ghost na = a_outs.len();
    while rest.len() > 0
        invariant
            index.wf(),
            rest.len() <= na,
            na == a_outs.len(),
            rest@ == a_outs.subrange(na - rest.len(), na as int),
            index@ == apply_synced(m0, a_outs.subrange(0, na - rest.len())),
            index.galleries == old(index).galleries,
            results@.len() == na - rest.len(),
            forall|j: int| 0 <= j < results@.len() ==> #[trigger] results@[j] == marked(a_outs[j], false),
            forall|g: Seq<char>| #[trigger] views(fresh@).contains(g) <==> synced_guids(a_outs.subrange(0, na - rest.len())).contains(g),
        decreases rest.len(),
    {
        let ghost done = na - rest.len();
        let ghost prev = a_outs.subrange(0, done);
        let ghost next = a_outs.subrange(0, done + 1);
        let o = rest.remove(0);
        assert(o == a_outs[done]);
        assert(next.drop_last() =~= prev);
        assert(next.last() == a_outs[done]);
        let ghost fresh_before = fresh@;
        match o {
            ProcessOutcome::Synced(p) => {
                let g = p.guid.clone();
                index.add_or_update_photo(p);
                fresh.push(g.clone());
                results.push(SyncResult::Added(g));
                assert(views(fresh@) =~= views(fresh_before).push(g@));
            },
            ProcessOutcome::Failed(g, e) => {
                results.push(SyncResult::Failed(g, e));
            },
        }
        assert forall|g: Seq<char>| #[trigger] views(fresh@).contains(g) <==> synced_guids(next).contains(g) by {
            if synced_guids(next).contains(g) {
                let j = choose|j: int| 0 <= j < next.len() && #[trigger] synced_at(next, j, g);
                if j < done {
                    assert(prev[j] == next[j]);
                    assert(synced_at(prev, j, g));
                    assert(synced_guids(prev).contains(g));
                } else {
                    assert(views(fresh@)[views(fresh@).len() - 1] == g);
                }
            }
            if synced_guids(prev).contains(g) {
                let j = choose|j: int| 0 <= j < prev.len() && #[trigger] synced_at(prev, j, g);
                assert(next[j] == prev[j]);
                assert(synced_at(next, j, g));
            }
            if views(fresh@).contains(g) && !views(fresh_before).contains(g) {
                assert(next[done as int] == o);
                assert(synced_at(next, done as int, g));
            }
            if views(fresh_before).contains(g) {
                let w = choose|w: int| 0 <= w < views(fresh_before).len() && #[trigger] views(fresh_before)[w] == g;
                assert(views(fresh@)[w] == g);
            }
        }
    }
    assert(a_outs.subrange(0, na as int) =~= a_outs);
    let ghost m1 = index@;
    let mut rest = updated;
    let ghost nu = u_outs.len();
    let ghost fresh_a = views(fresh@);
    while rest.len() > 0
        invariant
            index.wf(),
            rest.len() <= nu,
            nu == u_outs.len(),
            na == a_outs.len(),
            rest@ == u_outs.subrange(nu - rest.len(), nu as int),
            index@ == apply_synced(m1, u_outs.subrange(0, nu - rest.len())),
            index.galleries == old(index).galleries,
            results@.len() == na + nu - rest.len(),
            forall|j: int| 0 <= j < na ==> #[trigger] results@[j] == marked(a_outs[j], false),
            forall|j: int| 0 <= j < nu - rest.len() ==> #[trigger] results@[na + j] == marked(u_outs[j], true),
            forall|g: Seq<char>| #[trigger] views(fresh@).contains(g) <==> (synced_guids(a_outs).contains(g) || synced_guids(u_outs.subrange(0, nu - rest.len())).contains(g)),
        decreases rest.len(),
    {
        let ghost done = nu - rest.len();
        let ghost prev = u_outs.subrange(0, done);
        let ghost next = u_outs.subrange(0, done + 1);
        let o = rest.remove(0);
        assert(o == u_outs[done]);
        assert(next.drop_last() =~= prev);
        assert(next.last() == u_outs[done]);
        let ghost fresh_before = fresh@;
        match o {
            ProcessOutcome::Synced(p) => {
                let g = p.guid.clone();
                index.add_or_update_photo(p);
                fresh.push(g.clone());
                results.push(SyncResult::Updated(g));
                assert(views(fresh@) =~= views(fresh_before).push(g@));
            },
            ProcessOutcome::Failed(g, e) => {
                results.push(SyncResult::Failed(g, e));
            },
        }
        assert(results@[na + done] == marked(u_outs[done], true));
        assert forall|g: Seq<char>| #[trigger] views(fresh@).contains(g) <==> (synced_guids(a_outs).contains(g) || synced_guids(next).contains(g)) by {
            if synced_guids(next).contains(g) {
                let j = choose|j: int| 0 <= j < next.len() && #[trigger] synced_at(next, j, g);
                if j < done {
                    assert(prev[j] == next[j]);
                    assert(synced_at(prev, j, g));
                    assert(synced_guids(prev).contains(g));
                } else {
                    assert(views(fresh@)[views(fresh@).len() - 1] == g);
                }
            }
            if synced_guids(prev).contains(g) {
                let j = choose|j: int| 0 <= j < prev.len() && #[trigger] synced_at(prev, j, g);
                assert(next[j] == prev[j]);
                assert(synced_at(next, j, g));
            }
            if views(fresh@).contains(g) && !views(fresh_before).contains(g) {
                assert(next[done as int] == o);
                assert(synced_at(next, done as int, g));
            }
            if views(fresh_before).contains(g) {
                let w = choose|w: int| 0 <= w < views(fresh_before).len() && #[trigger] views(fresh_before)[w] == g;
                assert(views(fresh@)[w] == g);
            }
        }
    }
    assert(u_outs.subrange(0, nu as int) =~= u_outs);
    let ghost mid = index@;
    let mut gal = index.galleries.remove(k);
    let ghost g0 = gal;
    assert(gal == old(index).galleries@[k as int]);
    let mut i: usize = 0;
    while i < fresh.len()
        invariant
            i <= fresh.len(),
            gal.wf(),
            gal.id == g0.id,
            gal.name == g0.name,
            forall|g: Seq<char>| #[trigger] gal.members().contains(g) <==> (g0.members().contains(g) || views(fresh@.subrange(0, i as int)).contains(g)),
        decreases fresh.len() - i,
    {
        let ghost before = gal;
        gal.add_photo(fresh[i].clone());
        assert forall|g: Seq<char>| #[trigger] gal.members().contains(g) <==> (g0.members().contains(g) || views(fresh@.subrange(0, i + 1)).contains(g)) by {
            assert(views(fresh@.subrange(0, i + 1)) =~= views(fresh@.subrange(0, i as int)).push(fresh@[i as int]@));
            assert(views(fresh@.subrange(0, i + 1))[i as int] == fresh@[i as int]@);
            if before.members().contains(g) {
                let w = choose|w: int| 0 <= w < before.members().len() && #[trigger] before.members()[w] == g;
                assert(gal.members()[w] == g);
            }
            if gal.members().contains(g) && g != fresh@[i as int]@ {
                let w = choose|w: int| 0 <= w < gal.members().len() && #[trigger] gal.members()[w] == g;
                if w < before.members().len() {
                    assert(before.members()[w] == g);
                }
            }
            if views(fresh@.subrange(0, i as int)).contains(g) {
                let w = choose|w: int| 0 <= w < i && #[trigger] views(fresh@.subrange(0, i as int))[w] == g;
                assert(views(fresh@.subrange(0, i + 1))[w] == g);
            }
            if views(fresh@.subrange(0, i + 1)).contains(g) && g != fresh@[i as int]@ {
                let w = choose|w: int| 0 <= w < i + 1 && #[trigger] views(fresh@.subrange(0, i + 1))[w] == g;
                assert(views(fresh@.subrange(0, i as int))[w] == g);
            }
        }
        i = i + 1;
    }
    assert(fresh@.subrange(0, fresh@.len() as int) =~= fresh@);
    let ghost g1 = gal;
    let mut j: usize = 0;
    while j < removed.len()
        invariant
            j <= removed.len(),
            gal.wf(),
            gal.id == g0.id,
            gal.name == g0.name,
            forall|g: Seq<char>| #[trigger] gal.members().contains(g) <==> (g1.members().contains(g) && !views(removed@.subrange(0, j as int)).contains(g)),
        decreases removed.len() - j,
    {
        let ghost before = gal;
        gal.remove_photo(removed[j].as_str());
        assert forall|g: Seq<char>| #[trigger] gal.members().contains(g) <==> (g1.members().contains(g) && !views(removed@.subrange(0, j + 1)).contains(g)) by {
            lemma_member_removed(before.photos@, gal.photos@, removed@[j as int]@, g);
            assert(views(removed@.subrange(0, j + 1)) =~= views(removed@.subrange(0, j as int)).push(removed@[j as int]@));
            assert(views(removed@.subrange(0, j + 1))[j as int] == removed@[j as int]@);
            if views(removed@.subrange(0, j as int)).contains(g) {
                let w = choose|w: int| 0 <= w < j && #[trigger] views(removed@.subrange(0, j as int))[w] == g;
                assert(views(removed@.subrange(0, j + 1))[w] == g);
            }
            if views(removed@.subrange(0, j + 1)).contains(g) && g != removed@[j as int]@ {
                let w = choose|w: int| 0 <= w < j + 1 && #[trigger] views(removed@.subrange(0, j + 1))[w] == g;
                assert(views(removed@.subrange(0, j as int))[w] == g);
            }
        }
        j = j + 1;
    }
    assert(removed@.subrange(0, removed@.len() as int) =~= removed@);
    index.galleries.insert(k, gal);
    assert(index.galleries@ =~= old(index).galleries@.update(k as int, gal));
    assert(index.unique_gallery_ids());
    assert forall|q: int| 0 <= q < index.galleries.len() implies #[trigger] index.galleries@[q].wf() by {
        if q != k {
            assert(index.galleries@[q] == old(index).galleries@[q]);
        }
    }
    let ghost base = results@.len();
    let mut j: usize = 0;
    while j < removed.len()
        invariant
            j <= removed.len(),
            base == na + nu,
            na == a_outs.len(),
            nu == u_outs.len(),
            results@.len() == base + j,
            forall|q: int| 0 <= q < na ==> #[trigger] results@[q] == marked(a_outs[q], false),
            forall|q: int| 0 <= q < nu ==> #[trigger] results@[na + q] == marked(u_outs[q], true),
            forall|q: int| 0 <= q < j ==> #[trigger] results@[na + nu + q] == SyncResult::Deleted(removed@[q]),
        decreases removed.len() - j,
    {
        results.push(SyncResult::Deleted(removed[j].clone()));
        j = j + 1;
    }
    let mut j: usize = 0;
    while j < unchanged.len()
        invariant
            j <= unchanged.len(),
            results@.len() == na + nu + removed@.len() + j,
            na == a_outs.len(),
            nu == u_outs.len(),
            forall|q: int| 0 <= q < na ==> #[trigger] results@[q] == marked(a_outs[q], false),
            forall|q: int| 0 <= q < nu ==> #[trigger] results@[na + q] == marked(u_outs[q], true),
            forall|q: int| 0 <= q < removed@.len() ==> #[trigger] results@[na + nu + q] == SyncResult::Deleted(removed@[q]),
            forall|q: int| 0 <= q < j ==> #[trigger] results@[na + nu + removed@.len() + q] == SyncResult::Unchanged(unchanged@[q]),
        decreases unchanged.len() - j,
    {
        results.push(SyncResult::Unchanged(unchanged[j].clone()));
        j = j + 1;
    }
    results
}

} // verus!
