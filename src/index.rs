//! The local index: photos keyed by guid and galleries keyed by id, with
//! the mutation helpers that keep it consistent.

use vstd::prelude::*;
use crate::datetime::{DateTime, now};
use crate::model::{Gallery, IndexedPhoto, Location, ExifMetadata, Photo, views};
use crate::album::copy_text;
use crate::text::str_eq;

verus! {

/// No two photos of the sequence share a guid.
pub open spec fn unique_guids(ps: Seq<IndexedPhoto>) -> bool {
    forall|i: int, j: int|
        0 <= i < ps.len() && 0 <= j < ps.len() && i != j ==> ps[i].guid@ != ps[j].guid@
}

/// The photos of a sequence as a map from guid to photo.
pub open spec fn photo_map(ps: Seq<IndexedPhoto>) -> Map<Seq<char>, IndexedPhoto>
    decreases ps.len(),
{
    if ps.len() == 0 {
        Map::empty()
    } else {
        photo_map(ps.drop_last()).insert(ps.last().guid@, ps.last())
    }
}

pub proof fn lemma_unique_drop_last(ps: Seq<IndexedPhoto>)
    requires
        unique_guids(ps),
        ps.len() > 0,
    ensures
        unique_guids(ps.drop_last()),
{
    let d = ps.drop_last();
    assert forall|i: int, j: int|
        0 <= i < d.len() && 0 <= j < d.len() && i != j implies d[i].guid@ != d[j].guid@ by {
        assert(d[i] == ps[i]);
        assert(d[j] == ps[j]);
    }
}

pub proof fn lemma_photo_map_lookup(ps: Seq<IndexedPhoto>)
    requires
        unique_guids(ps),
    ensures
        forall|g: Seq<char>|
            #[trigger] photo_map(ps).contains_key(g) <==> exists|i: int|
                0 <= i < ps.len() && ps[i].guid@ == g,
        forall|i: int| 0 <= i < ps.len() ==> #[trigger] photo_map(ps)[ps[i].guid@] == ps[i],
    decreases ps.len(),
{
    if ps.len() > 0 {
        let d = ps.drop_last();
        lemma_unique_drop_last(ps);
        lemma_photo_map_lookup(d);
        assert forall|g: Seq<char>|
            #[trigger] photo_map(ps).contains_key(g) <==> exists|i: int|
                0 <= i < ps.len() && ps[i].guid@ == g by {
            if photo_map(ps).contains_key(g) && g != ps.last().guid@ {
                assert(photo_map(d).contains_key(g));
                let i = choose|i: int| 0 <= i < d.len() && d[i].guid@ == g;
                assert(ps[i].guid@ == g);
            }
            if exists|i: int| 0 <= i < ps.len() && ps[i].guid@ == g {
                let i = choose|i: int| 0 <= i < ps.len() && ps[i].guid@ == g;
                if i < d.len() {
                    assert(d[i].guid@ == g);
                    assert(photo_map(d).contains_key(g));
                }
            }
        }
        assert forall|i: int| 0 <= i < ps.len() implies #[trigger] photo_map(ps)[ps[i].guid@]
            == ps[i] by {
            if i < d.len() {
                assert(d[i] == ps[i]);
                assert(ps[i].guid@ != ps.last().guid@);
                assert(photo_map(d)[d[i].guid@] == d[i]);
            }
        }
    }
}

pub proof fn lemma_photo_map_len(ps: Seq<IndexedPhoto>)
    requires
        unique_guids(ps),
    ensures
        photo_map(ps).dom().finite(),
        photo_map(ps).dom().len() == ps.len(),
    decreases ps.len(),
{
    if ps.len() > 0 {
        let d = ps.drop_last();
        lemma_unique_drop_last(ps);
        lemma_photo_map_len(d);
        lemma_photo_map_lookup(d);
        if photo_map(d).contains_key(ps.last().guid@) {
            let i = choose|i: int| 0 <= i < d.len() && d[i].guid@ == ps.last().guid@;
            assert(ps[i].guid@ == ps[ps.len() - 1].guid@);
        }
    }
}

pub proof fn lemma_photo_map_push(ps: Seq<IndexedPhoto>, p: IndexedPhoto)
    requires
        unique_guids(ps),
        !photo_map(ps).contains_key(p.guid@),
    ensures
        unique_guids(ps.push(p)),
        photo_map(ps.push(p)) == photo_map(ps).insert(p.guid@, p),
{
    lemma_photo_map_lookup(ps);
    assert(ps.push(p).drop_last() =~= ps);
    assert forall|i: int, j: int|
        0 <= i < ps.len() + 1 && 0 <= j < ps.len() + 1 && i != j implies ps.push(p)[i].guid@
        != ps.push(p)[j].guid@ by {
        if i < ps.len() && j == ps.len() {
            assert(photo_map(ps).contains_key(ps[i].guid@));
        }
        if j < ps.len() && i == ps.len() {
            assert(photo_map(ps).contains_key(ps[j].guid@));
        }
    }
}

pub proof fn lemma_photo_map_update(ps: Seq<IndexedPhoto>, i: int, p: IndexedPhoto)
    requires
        unique_guids(ps),
        0 <= i < ps.len(),
        ps[i].guid@ == p.guid@,
    ensures
        unique_guids(ps.update(i, p)),
        photo_map(ps.update(i, p)) == photo_map(ps).insert(p.guid@, p),
    decreases ps.len(),
{
    let u = ps.update(i, p);
    let d = ps.drop_last();
    lemma_unique_drop_last(ps);
    assert(unique_guids(u)) by {
        assert forall|a: int, b: int|
            0 <= a < u.len() && 0 <= b < u.len() && a != b implies u[a].guid@ != u[b].guid@ by {
            assert(u[a].guid@ == ps[a].guid@);
            assert(u[b].guid@ == ps[b].guid@);
        }
    }
    if i == ps.len() - 1 {
        assert(u.drop_last() =~= d);
        assert(photo_map(u) =~= photo_map(ps).insert(p.guid@, p));
    } else {
        lemma_photo_map_update(d, i, p);
        assert(u.drop_last() =~= d.update(i, p));
        assert(ps.last().guid@ != p.guid@);
        assert(photo_map(u) =~= photo_map(ps).insert(p.guid@, p));
    }
}

pub proof fn lemma_photo_map_remove(ps: Seq<IndexedPhoto>, i: int)
    requires
        unique_guids(ps),
        0 <= i < ps.len(),
    ensures
        unique_guids(ps.remove(i)),
        photo_map(ps.remove(i)) == photo_map(ps).remove(ps[i].guid@),
    decreases ps.len(),
{
    let r = ps.remove(i);
    let d = ps.drop_last();
    let g = ps[i].guid@;
    lemma_unique_drop_last(ps);
    assert(unique_guids(r)) by {
        assert forall|a: int, b: int|
            0 <= a < r.len() && 0 <= b < r.len() && a != b implies r[a].guid@ != r[b].guid@ by {
            let a2 = if a < i { a } else { a + 1 };
            let b2 = if b < i { b } else { b + 1 };
            assert(r[a] == ps[a2]);
            assert(r[b] == ps[b2]);
        }
    }
    if i == ps.len() - 1 {
        assert(r =~= d);
        lemma_photo_map_lookup(d);
        assert(!photo_map(d).contains_key(g)) by {
            if photo_map(d).contains_key(g) {
                let k = choose|k: int| 0 <= k < d.len() && d[k].guid@ == g;
                assert(ps[k].guid@ == g);
            }
        }
        assert(photo_map(r) =~= photo_map(ps).remove(g));
    } else {
        lemma_photo_map_remove(d, i);
        assert(r.drop_last() =~= d.remove(i));
        assert(r.last() == ps.last());
        assert(ps.last().guid@ != g);
        assert(photo_map(r) =~= photo_map(ps).remove(g));
    }
}

/// The local database of photos and galleries.
#[derive(Clone, Debug)]
pub struct PhotoIndex {
    /// When the index was last changed.
    pub last_updated: DateTime,
    pub photos: Vec<IndexedPhoto>,
    pub galleries: Vec<Gallery>,
}

impl PhotoIndex {
    /// The photos as a map from guid.
    pub open spec fn view(&self) -> Map<Seq<char>, IndexedPhoto> {
        photo_map(self.photos@)
    }

    pub open spec fn unique_gallery_ids(&self) -> bool {
        forall|i: int, j: int|
            0 <= i < self.galleries.len() && 0 <= j < self.galleries.len() && i != j
                ==> self.galleries[i].id@ != self.galleries[j].id@
    }

    pub open spec fn wf(&self) -> bool {
        &&& unique_guids(self.photos@)
        &&& self.unique_gallery_ids()
        &&& forall|k: int| 0 <= k < self.galleries.len() ==> #[trigger] self.galleries[k].wf()
    }
}

/// Relies on uuid's `Uuid::new_v4` and its hyphenated text form, which is
/// always 36 characters long.
#[verifier::external_body]
pub(crate) fn new_uuid() -> (r: String)
    ensures
        r@.len() == 36,
{
    uuid::Uuid::new_v4().to_string()
}

/// The first position at which `s` holds a string equal to `g`.
pub fn position_of(s: &Vec<String>, g: &str) -> (r: Option<usize>)
    ensures
        match r {
            Some(i) => i < s.len() && s@[i as int]@ == g@ && forall|j: int|
                0 <= j < i ==> s@[j]@ != g@,
            None => !views(s@).contains(g@),
        },
{
    let mut i: usize = 0;
    while i < s.len()
        invariant
            i <= s.len(),
            forall|j: int| 0 <= j < i ==> s@[j]@ != g@,
        decreases s.len() - i,
    {
        if str_eq(s[i].as_str(), g) {
            return Some(i);
        }
        i = i + 1;
    }
    assert forall|j: int| 0 <= j < views(s@).len() implies views(s@)[j] != g@ by {}
    None
}

impl Gallery {
    /// A new empty gallery, stamped with the current time and a fresh uuid.
    pub fn new(id: String, name: String, slug: String, description: Option<String>) -> (r: Gallery)
        ensures
            r.id == id,
            r.name == name,
            r.slug == slug,
            r.description == description,
            r.photos@.len() == 0,
            r.wf(),
    {
        let t = now();
        Gallery {
            id,
            name,
            slug,
            description,
            photos: Vec::new(),
            uuid: new_uuid(),
            created_at: t,
            updated_at: t,
        }
    }

    /// Adds a guid at the end of the member list unless it is already there.
    pub fn add_photo(&mut self, guid: String)
        ensures
            final(self).id == old(self).id,
            final(self).name == old(self).name,
            final(self).slug == old(self).slug,
            final(self).description == old(self).description,
            final(self).uuid == old(self).uuid,
            old(self).members().contains(guid@) ==> final(self).photos@ == old(self).photos@,
            !old(self).members().contains(guid@) ==> final(self).photos@ == old(self).photos@.push(
                guid,
            ),
            old(self).wf() ==> final(self).wf(),
            final(self).members().contains(guid@),
    {
        match position_of(&self.photos, guid.as_str()) {
            Some(i) => {
                assert(self.members()[i as int] == guid@);
            },
            None => {
                let ghost g = guid@;
                self.photos.push(guid);
                self.updated_at = now();
                assert(self.members() =~= old(self).members().push(g));
                assert(self.members()[self.members().len() - 1] == g);
            },
        }
    }

    /// Removes a guid from the member list; the photo itself stays indexed.
    pub fn remove_photo(&mut self, guid: &str)
        ensures
            final(self).id == old(self).id,
            final(self).name == old(self).name,
            final(self).slug == old(self).slug,
            final(self).description == old(self).description,
            final(self).uuid == old(self).uuid,
            member_removed(old(self).photos@, final(self).photos@, guid@),
            old(self).wf() ==> final(self).wf() && !final(self).members().contains(guid@),
    {
        match position_of(&self.photos, guid) {
            Some(i) => {
                self.photos.remove(i);
                self.updated_at = now();
                assert(views(old(self).photos@)[i as int] == guid@);
                assert(self.members() =~= old(self).members().remove(i as int));
                proof {
                    if old(self).wf() {
                        assert forall|a: int, b: int|
                            0 <= a < self.members().len() && 0 <= b < self.members().len() && a
                                != b implies self.members()[a] != self.members()[b] by {
                            let a2 = if a < i { a } else { a + 1 };
                            let b2 = if b < i { b } else { b + 1 };
                            assert(self.members()[a] == old(self).members()[a2]);
                            assert(self.members()[b] == old(self).members()[b2]);
                        }
                        assert forall|a: int| 0 <= a < self.members().len() implies self.members()[a]
                            != guid@ by {
                            let a2 = if a < i { a } else { a + 1 };
                            assert(self.members()[a] == old(self).members()[a2]);
                            assert(old(self).members()[i as int] == guid@);
                        }
                    }
                }
            },
            None => {},
        }
    }
}

/// `after` is `before` without the first string equal to `g`, if there is one.
pub open spec fn member_removed(before: Seq<String>, after: Seq<String>, g: Seq<char>) -> bool {
    if views(before).contains(g) {
        exists|i: int|
            0 <= i < before.len() && before[i]@ == g && (forall|j: int| 0 <= j < i ==> before[j]@ != g)
                && after == before.remove(i)
    } else {
        after == before
    }
}

/// `after` is `before` with `g` taken out of its member list.
pub open spec fn gallery_pruned(before: Gallery, after: Gallery, g: Seq<char>) -> bool {
    &&& after.id == before.id
    &&& after.name == before.name
    &&& after.slug == before.slug
    &&& after.description == before.description
    &&& after.uuid == before.uuid
    &&& member_removed(before.photos@, after.photos@, g)
}

/// The photos that the member guids name, in member order, leaving out
/// guids that are not indexed.
pub open spec fn indexed_members(ms: Seq<Seq<char>>, m: Map<Seq<char>, IndexedPhoto>) -> Seq<
    IndexedPhoto,
>
    decreases ms.len(),
{
    if ms.len() == 0 {
        Seq::empty()
    } else {
        let rest = indexed_members(ms.drop_last(), m);
        if m.contains_key(ms.last()) {
            rest.push(m[ms.last()])
        } else {
            rest
        }
    }
}

impl PhotoIndex {
    /// A new empty index.
    pub fn new() -> (r: PhotoIndex)
        ensures
            r.wf(),
            r@ == Map::<Seq<char>, IndexedPhoto>::empty(),
            r.galleries@.len() == 0,
    {
        PhotoIndex { last_updated: now(), photos: Vec::new(), galleries: Vec::new() }
    }

    /// Checks the invariant: guids unique, gallery ids unique, and no
    /// gallery lists a member twice.
    pub fn is_well_formed(&self) -> (r: bool)
        ensures
            r == self.wf(),
    {
        let n = self.photos.len();
        let mut i: usize = 0;
        while i < n
            invariant
                n == self.photos.len(),
                i <= n,
                forall|a: int, b: int| 0 <= a < i && 0 <= b < n && a != b ==> self.photos@[a].guid@ != self.photos@[b].guid@,
            decreases n - i,
        {
            let mut j: usize = 0;
            while j < n
                invariant
                    n == self.photos.len(),
                    i < n,
                    j <= n,
                    forall|a: int, b: int| 0 <= a < i && 0 <= b < n && a != b ==> self.photos@[a].guid@ != self.photos@[b].guid@,
                    forall|b: int| 0 <= b < j && b != i ==> self.photos@[i as int].guid@ != self.photos@[b].guid@,
                decreases n - j,
            {
                if j != i && str_eq(self.photos[i].guid.as_str(), self.photos[j].guid.as_str()) {
                    assert(!unique_guids(self.photos@));
                    return false;
                }
                j = j + 1;
            }
            i = i + 1;
        }
        let m = self.galleries.len();
        let mut i: usize = 0;
        while i < m
            invariant
                m == self.galleries.len(),
                unique_guids(self.photos@),
                i <= m,
                forall|a: int, b: int| 0 <= a < i && 0 <= b < m && a != b ==> self.galleries@[a].id@ != self.galleries@[b].id@,
                forall|a: int| 0 <= a < i ==> #[trigger] self.galleries@[a].wf(),
            decreases m - i,
        {
            let mut j: usize = 0;
            while j < m
                invariant
                    m == self.galleries.len(),
                    i < m,
                    j <= m,
                    forall|b: int| 0 <= b < j && b != i ==> self.galleries@[i as int].id@ != self.galleries@[b].id@,
                decreases m - j,
            {
                if j != i && str_eq(self.galleries[i].id.as_str(), self.galleries[j].id.as_str()) {
                    assert(!self.unique_gallery_ids());
                    return false;
                }
                j = j + 1;
            }
            let ps = &self.galleries[i].photos;
            let k_n = ps.len();
            let mut k: usize = 0;
            while k < k_n
                invariant
                    k_n == ps.len(),
                    k <= k_n,
                    m == self.galleries.len(),
                    i < m,
                    ps@ == self.galleries@[i as int].photos@,
                    forall|a: int, b: int| 0 <= a < k && 0 <= b < k_n && a != b ==> ps@[a]@ != ps@[b]@,
                decreases k_n - k,
            {
                let mut l: usize = 0;
                while l < k_n
                    invariant
                        k_n == ps.len(),
                        k < k_n,
                        m == self.galleries.len(),
                        i < m,
                        ps@ == self.galleries@[i as int].photos@,
                        l <= k_n,
                        forall|b: int| 0 <= b < l && b != k ==> ps@[k as int]@ != ps@[b]@,
                    decreases k_n - l,
                {
                    if l != k && str_eq(ps[k].as_str(), ps[l].as_str()) {
                        proof {
                            let ms = self.galleries@[i as int].members();
                            assert(ms[k as int] == ps@[k as int]@);
                            assert(ms[l as int] == ps@[l as int]@);
                            assert(!self.galleries@[i as int].wf());
                        }
                        return false;
                    }
                    l = l + 1;
                }
                k = k + 1;
            }
            assert(self.galleries@[i as int].wf()) by {
                let ms = self.galleries@[i as int].members();
                assert forall|a: int, b: int| 0 <= a < ms.len() && 0 <= b < ms.len() && a != b implies ms[a] != ms[b] by {
                    assert(ms[a] == ps@[a]@);
                    assert(ms[b] == ps@[b]@);
                }
            }
            i = i + 1;
        }
        true
    }

    /// The position of the photo with the given guid.
    pub fn find_photo(&self, guid: &str) -> (r: Option<usize>)
        requires
            self.wf(),
        ensures
            match r {
                Some(i) => i < self.photos.len() && self.photos@[i as int].guid@ == guid@
                    && self@.contains_key(guid@) && self@[guid@] == self.photos@[i as int],
                None => !self@.contains_key(guid@),
            },
    {
        proof {
            lemma_photo_map_lookup(self.photos@);
        }
        let mut i: usize = 0;
        while i < self.photos.len()
            invariant
                i <= self.photos.len(),
                unique_guids(self.photos@),
                forall|j: int| 0 <= j < i ==> self.photos@[j].guid@ != guid@,
            decreases self.photos.len() - i,
        {
            if str_eq(self.photos[i].guid.as_str(), guid) {
                proof {
                    lemma_photo_map_lookup(self.photos@);
                }
                assert(exists|j: int| 0 <= j < self.photos@.len() && self.photos@[j].guid@ == guid@);
                assert(photo_map(self.photos@).contains_key(guid@));
                assert(photo_map(self.photos@)[self.photos@[i as int].guid@] == self.photos@[i as int]);
                return Some(i);
            }
            i = i + 1;
        }
        None
    }

    /// Inserts the photo under its guid, replacing any photo there.
    pub fn add_or_update_photo(&mut self, photo: IndexedPhoto)
        requires
            old(self).wf(),
        ensures
            final(self).wf(),
            final(self)@ == old(self)@.insert(photo.guid@, photo),
            final(self).galleries == old(self).galleries,
    {
        let ghost g = photo.guid@;
        let ghost p = photo;
        match self.find_photo(photo.guid.as_str()) {
            Some(i) => {
                self.photos.remove(i);
                self.photos.insert(i, photo);
                proof {
                    assert(self.photos@ =~= old(self).photos@.update(i as int, p));
                    lemma_photo_map_update(old(self).photos@, i as int, p);
                }
            },
            None => {
                self.photos.push(photo);
                proof {
                    lemma_photo_map_push(old(self).photos@, p);
                }
            },
        }
        self.last_updated = now();
    }

    /// Removes the photo with the given guid, and its guid from every
    /// gallery's member list.
    pub fn remove_photo(&mut self, guid: &str) -> (r: Option<IndexedPhoto>)
        requires
            old(self).wf(),
        ensures
            final(self).wf(),
            final(self)@ == old(self)@.remove(guid@),
            r == (if old(self)@.contains_key(guid@) {
                Some(old(self)@[guid@])
            } else {
                None
            }),
            final(self).galleries.len() == old(self).galleries.len(),
            forall|k: int|
                0 <= k < final(self).galleries.len() ==> gallery_pruned(
                    old(self).galleries@[k],
                    #[trigger] final(self).galleries@[k],
                    guid@,
                ),
            forall|k: int|
                0 <= k < final(self).galleries.len() ==> !(#[trigger] final(self).galleries@[k].members().contains(guid@)),
    {
        let n = self.galleries.len();
        let mut k: usize = 0;
        while k < n
            invariant
                n == self.galleries.len(),
                n == old(self).galleries.len(),
                k <= n,
                self.photos == old(self).photos,
                old(self).wf(),
                forall|j: int| 0 <= j < k ==> gallery_pruned(old(self).galleries@[j], #[trigger] self.galleries@[j], guid@),
                forall|j: int| 0 <= j < k ==> (#[trigger] self.galleries@[j]).wf() && !self.galleries@[j].members().contains(guid@),
                forall|j: int| k <= j < n ==> #[trigger] self.galleries@[j] == old(self).galleries@[j],
            decreases n - k,
        {
            let mut gal = self.galleries.remove(k);
            assert(gal == old(self).galleries@[k as int]);
            gal.remove_photo(guid);
            self.galleries.insert(k, gal);
            k = k + 1;
        }
        assert(self.unique_gallery_ids()) by {
            assert forall|a: int, b: int| 0 <= a < n && 0 <= b < n && a != b implies self.galleries@[a].id@ != self.galleries@[b].id@ by {
                assert(gallery_pruned(old(self).galleries@[a], self.galleries@[a], guid@));
                assert(gallery_pruned(old(self).galleries@[b], self.galleries@[b], guid@));
            }
        }
        match self.find_photo(guid) {
            Some(i) => {
                let ghost ps = self.photos@;
                let removed = self.photos.remove(i);
                proof {
                    lemma_photo_map_remove(ps, i as int);
                }
                self.last_updated = now();
                Some(removed)
            },
            None => {
                assert(self@ =~= old(self)@.remove(guid@));
                None
            },
        }
    }

    /// The photo with the given guid.
    pub fn get_photo(&self, guid: &str) -> (r: Option<&IndexedPhoto>)
        requires
            self.wf(),
        ensures
            r == (if self@.contains_key(guid@) {
                Some(&self@[guid@])
            } else {
                None
            }),
    {
        match self.find_photo(guid) {
            Some(i) => Some(&self.photos[i]),
            None => None,
        }
    }

    /// The number of indexed photos.
    pub fn photo_count(&self) -> (r: usize)
        requires
            self.wf(),
        ensures
            r == self@.len(),
    {
        proof {
            lemma_photo_map_len(self.photos@);
        }
        self.photos.len()
    }
}

impl PhotoIndex {
    /// The position of the gallery with the given id.
    pub fn find_gallery(&self, id: &str) -> (r: Option<usize>)
        requires
            self.wf(),
        ensures
            match r {
                Some(k) => k < self.galleries.len() && self.galleries@[k as int].id@ == id@,
                None => forall|k: int|
                    0 <= k < self.galleries.len() ==> #[trigger] self.galleries@[k].id@ != id@,
            },
    {
        let mut k: usize = 0;
        while k < self.galleries.len()
            invariant
                k <= self.galleries.len(),
                forall|j: int| 0 <= j < k ==> #[trigger] self.galleries@[j].id@ != id@,
            decreases self.galleries.len() - k,
        {
            if str_eq(self.galleries[k].id.as_str(), id) {
                return Some(k);
            }
            k = k + 1;
        }
        None
    }

    /// Inserts the gallery under its id, replacing any gallery there.
    pub fn add_or_update_gallery(&mut self, gallery: Gallery)
        requires
            old(self).wf(),
            gallery.wf(),
        ensures
            final(self).wf(),
            final(self)@ == old(self)@,
            (exists|k: int|
                0 <= k < old(self).galleries.len() && old(self).galleries@[k].id@ == gallery.id@
                    && final(self).galleries@ == old(self).galleries@.update(k, gallery)) || (
            (forall|k: int|
                0 <= k < old(self).galleries.len() ==> #[trigger] old(self).galleries@[k].id@
                    != gallery.id@) && final(self).galleries@ == old(self).galleries@.push(
                gallery,
            )),
    {
        let ghost gl = gallery;
        match self.find_gallery(gallery.id.as_str()) {
            Some(k) => {
                self.galleries.remove(k);
                self.galleries.insert(k, gallery);
                assert(self.galleries@ =~= old(self).galleries@.update(k as int, gl));
            },
            None => {
                self.galleries.push(gallery);
                assert(self.galleries@[old(self).galleries.len() as int] == gl);
            },
        }
        self.last_updated = now();
        assert(self.unique_gallery_ids());
        assert forall|k: int| 0 <= k < self.galleries.len() implies #[trigger] self.galleries@[k].wf() by {
            if self.galleries@[k] != gl {
                assert(old(self).galleries@.contains(self.galleries@[k]));
            }
        }
    }

    /// Removes the gallery with the given id; its photos stay indexed.
    pub fn remove_gallery(&mut self, id: &str) -> (r: Option<Gallery>)
        requires
            old(self).wf(),
        ensures
            final(self).wf(),
            final(self)@ == old(self)@,
            match r {
                Some(g) => exists|k: int|
                    0 <= k < old(self).galleries.len() && old(self).galleries@[k] == g && g.id@
                        == id@ && final(self).galleries@ == old(self).galleries@.remove(k),
                None => (forall|k: int|
                    0 <= k < old(self).galleries.len() ==> #[trigger] old(self).galleries@[k].id@
                        != id@) && final(self).galleries@ == old(self).galleries@,
            },
    {
        match self.find_gallery(id) {
            Some(k) => {
                let g = self.galleries.remove(k);
                self.last_updated = now();
                assert forall|a: int| 0 <= a < self.galleries.len() implies #[trigger] self.galleries@[a] == old(self).galleries@[if a < k { a } else { a + 1 }] by {}
                Some(g)
            },
            None => None,
        }
    }

    /// The gallery with the given id.
    pub fn get_gallery(&self, id: &str) -> (r: Option<&Gallery>)
        requires
            self.wf(),
        ensures
            match r {
                Some(g) => exists|k: int|
                    0 <= k < self.galleries.len() && self.galleries@[k] == *g && g.id@ == id@,
                None => forall|k: int|
                    0 <= k < self.galleries.len() ==> #[trigger] self.galleries@[k].id@ != id@,
            },
    {
        match self.find_gallery(id) {
            Some(k) => Some(&self.galleries[k]),
            None => None,
        }
    }

    /// The number of galleries.
    pub fn gallery_count(&self) -> (r: usize)
        ensures
            r == self.galleries.len(),
    {
        self.galleries.len()
    }

    /// The indexed photos of a gallery in member order; empty for an
    /// unknown gallery.
    pub fn get_gallery_photos(&self, gallery_id: &str) -> (r: Vec<&IndexedPhoto>)
        requires
            self.wf(),
        ensures
            match self.find_gallery_spec(gallery_id@) {
                Some(k) => {
                    let want = indexed_members(self.galleries@[k].members(), self@);
                    r@.len() == want.len() && forall|j: int| 0 <= j < want.len() ==> *r@[j] == want[j]
                },
                None => r@.len() == 0,
            },
    {
        match self.find_gallery(gallery_id) {
            Some(k) => {
                let gal = &self.galleries[k];
                let ghost ms = gal.members();
                let mut out: Vec<&IndexedPhoto> = Vec::new();
                let mut i: usize = 0;
                while i < gal.photos.len()
                    invariant
                        i <= gal.photos.len(),
                        ms == gal.members(),
                        self.wf(),
                        out@.len() == indexed_members(ms.subrange(0, i as int), self@).len(),
                        forall|j: int| 0 <= j < out@.len() ==> *out@[j] == indexed_members(ms.subrange(0, i as int), self@)[j],
                    decreases gal.photos.len() - i,
                {
                    let ghost before = out@;
                    assert(ms.subrange(0, i + 1).drop_last() =~= ms.subrange(0, i as int));
                    match self.find_photo(gal.photos[i].as_str()) {
                        Some(pi) => {
                            out.push(&self.photos[pi]);
                        },
                        None => {},
                    }
                    i = i + 1;
                }
                assert(ms.subrange(0, ms.len() as int) =~= ms);
                proof {
                    self.lemma_find_gallery_spec(k as int);
                }
                out
            },
            None => {
                proof {
                    self.lemma_find_gallery_spec_none(gallery_id@);
                }
                Vec::new()
            },
        }
    }

    /// The position of the gallery with the given id, if any.
    pub open spec fn find_gallery_spec(&self, id: Seq<char>) -> Option<int> {
        if exists|k: int| 0 <= k < self.galleries.len() && self.galleries@[k].id@ == id {
            Some(choose|k: int| 0 <= k < self.galleries.len() && self.galleries@[k].id@ == id)
        } else {
            None
        }
    }

    pub proof fn lemma_find_gallery_spec(&self, k: int)
        requires
            self.wf(),
            0 <= k < self.galleries.len(),
        ensures
            self.find_gallery_spec(self.galleries@[k].id@) == Some(k),
    {
    }

    pub proof fn lemma_find_gallery_spec_none(&self, id: Seq<char>)
        requires
            forall|k: int| 0 <= k < self.galleries.len() ==> #[trigger] self.galleries@[k].id@ != id,
        ensures
            self.find_gallery_spec(id) == None::<int>,
    {
    }
}

/// `dir` joined with `name` by one `/`.
pub open spec fn joined(dir: Seq<char>, name: Seq<char>) -> Seq<char> {
    if dir.len() == 0 {
        name
    } else if dir.last() == '/' {
        dir + name
    } else {
        dir + seq!['/'] + name
    }
}

/// Joins a directory and a name with one `/`.
pub fn join_path(dir: &str, name: &str) -> (r: String)
    ensures
        r@ == joined(dir@, name@),
{
    proof {
        reveal_strlit("/");
    }
    let n = dir.unicode_len();
    if n == 0 {
        name.to_owned()
    } else if dir.get_char(n - 1) == '/' {
        let mut s = dir.to_owned();
        s.append(name);
        s
    } else {
        let mut s = dir.to_owned();
        s.append("/");
        s.append(name);
        s
    }
}

/// The fields of an indexed photo that come from the remote photo.
pub open spec fn from_remote(r: IndexedPhoto, p: Photo) -> bool {
    &&& r.guid == p.guid
    &&& r.filename == p.filename
    &&& r.caption == p.caption
    &&& r.created_at == p.created_at
    &&& r.checksum == p.checksum
    &&& r.url == p.url
    &&& r.width == p.width
    &&& r.height == p.height
    &&& r.mime_type == p.mime_type
}

/// An indexed photo carries no metadata and no place.
pub open spec fn bare(r: IndexedPhoto) -> bool {
    &&& r.camera_make is None
    &&& r.camera_model is None
    &&& r.exif_date_time is None
    &&& r.latitude is None
    &&& r.longitude is None
    &&& r.fuzzed_latitude is None
    &&& r.fuzzed_longitude is None
    &&& r.iso is None
    &&& r.exposure_time is None
    &&& r.f_number is None
    &&& r.focal_length is None
    &&& r.location is None
}

/// The metadata fields of `r` are those of `e`.
pub open spec fn carries_exif(r: IndexedPhoto, e: ExifMetadata) -> bool {
    &&& r.camera_make == e.camera_make
    &&& r.camera_model == e.camera_model
    &&& r.exif_date_time == e.date_time
    &&& r.latitude == e.latitude
    &&& r.longitude == e.longitude
    &&& r.fuzzed_latitude == e.fuzzed_latitude
    &&& r.fuzzed_longitude == e.fuzzed_longitude
    &&& r.iso == e.iso
    &&& r.exposure_time == e.exposure_time
    &&& r.f_number == e.f_number
    &&& r.focal_length == e.focal_length
}

/// `a` and `b` agree on every field that does not come from metadata or
/// place resolution.
pub open spec fn same_base(a: IndexedPhoto, b: IndexedPhoto) -> bool {
    &&& a.guid == b.guid
    &&& a.filename == b.filename
    &&& a.caption == b.caption
    &&& a.created_at == b.created_at
    &&& a.checksum == b.checksum
    &&& a.url == b.url
    &&& a.width == b.width
    &&& a.height == b.height
    &&& a.mime_type == b.mime_type
    &&& a.last_sync == b.last_sync
    &&& a.local_path == b.local_path
}

impl IndexedPhoto {
    /// A new index entry with no metadata, synced now.
    pub fn new(
        guid: String,
        filename: String,
        caption: Option<String>,
        created_at: DateTime,
        checksum: String,
        url: String,
        width: u32,
        height: u32,
        mime_type: String,
        local_path: String,
    ) -> (r: IndexedPhoto)
        ensures
            r.guid == guid,
            r.filename == filename,
            r.caption == caption,
            r.created_at == created_at,
            r.checksum == checksum,
            r.url == url,
            r.width == width,
            r.height == height,
            r.mime_type == mime_type,
            r.local_path == local_path,
            r.last_sync.wf(),
            bare(r),
    {
        IndexedPhoto {
            guid,
            filename,
            caption,
            created_at,
            checksum,
            url,
            width,
            height,
            mime_type,
            last_sync: now(),
            local_path,
            camera_make: None,
            camera_model: None,
            exif_date_time: None,
            latitude: None,
            longitude: None,
            fuzzed_latitude: None,
            fuzzed_longitude: None,
            iso: None,
            exposure_time: None,
            f_number: None,
            focal_length: None,
            location: None,
        }
    }

    /// Takes over every metadata field of `exif`.
    pub fn update_exif(&mut self, exif: &ExifMetadata)
        ensures
            same_base(*final(self), *old(self)),
            carries_exif(*final(self), *exif),
            final(self).location == old(self).location,
    {
        self.camera_make = copy_text(&exif.camera_make);
        self.camera_model = copy_text(&exif.camera_model);
        self.exif_date_time = exif.date_time;
        self.latitude = exif.latitude;
        self.longitude = exif.longitude;
        self.fuzzed_latitude = exif.fuzzed_latitude;
        self.fuzzed_longitude = exif.fuzzed_longitude;
        self.iso = exif.iso;
        self.exposure_time = copy_text(&exif.exposure_time);
        self.f_number = exif.f_number;
        self.focal_length = exif.focal_length;
    }

    /// Records the place the coordinates resolved to.
    pub fn update_location(&mut self, location: Location)
        ensures
            same_base(*final(self), *old(self)),
            carries_exif(*final(self), exif_of(*old(self))),
            final(self).location == Some(location),
    {
        self.location = Some(location);
    }
}

/// The metadata fields of an indexed photo.
pub open spec fn exif_of(r: IndexedPhoto) -> ExifMetadata {
    ExifMetadata {
        camera_make: r.camera_make,
        camera_model: r.camera_model,
        date_time: r.exif_date_time,
        latitude: r.latitude,
        longitude: r.longitude,
        fuzzed_latitude: r.fuzzed_latitude,
        fuzzed_longitude: r.fuzzed_longitude,
        iso: r.iso,
        exposure_time: r.exposure_time,
        f_number: r.f_number,
        focal_length: r.focal_length,
    }
}

/// An index entry for a remote photo, stored at
/// `<content_dir>/<photo_id>/original.jpg`.
pub fn convert_to_indexed_photo(icloud_photo: &Photo, content_dir: &str, photo_id: &str) -> (r:
    IndexedPhoto)
    ensures
        from_remote(r, *icloud_photo),
        r.local_path@ == joined(joined(content_dir@, photo_id@), "original.jpg"@),
        bare(r),
{
    let dir = join_path(content_dir, photo_id);
    let path = join_path(dir.as_str(), "original.jpg");
    IndexedPhoto::new(
        icloud_photo.guid.clone(),
        icloud_photo.filename.clone(),
        copy_text(&icloud_photo.caption),
        icloud_photo.created_at,
        icloud_photo.checksum.clone(),
        icloud_photo.url.clone(),
        icloud_photo.width,
        icloud_photo.height,
        icloud_photo.mime_type.clone(),
        path,
    )
}

/// Each photo of the map sits under its own guid.
pub proof fn lemma_photo_map_keys(ps: Seq<IndexedPhoto>)
    requires
        unique_guids(ps),
    ensures
        forall|g: Seq<char>| #[trigger] photo_map(ps).contains_key(g) ==> photo_map(ps)[g].guid@ == g,
{
    lemma_photo_map_lookup(ps);
    assert forall|g: Seq<char>| #[trigger] photo_map(ps).contains_key(g) implies photo_map(ps)[g].guid@ == g by {
        let i = choose|i: int| 0 <= i < ps.len() && ps[i].guid@ == g;
        assert(photo_map(ps)[ps[i].guid@] == ps[i]);
    }
}

/// The photos a gallery lists are indexed under their own guids.
pub proof fn lemma_indexed_members_in_map(ms: Seq<Seq<char>>, m: Map<Seq<char>, IndexedPhoto>)
    requires
        forall|g: Seq<char>| #[trigger] m.contains_key(g) ==> m[g].guid@ == g,
    ensures
        forall|j: int|
            0 <= j < indexed_members(ms, m).len() ==> m.contains_key(
                #[trigger] indexed_members(ms, m)[j].guid@,
            ) && m[indexed_members(ms, m)[j].guid@] == indexed_members(ms, m)[j],
    decreases ms.len(),
{
    if ms.len() > 0 {
        lemma_indexed_members_in_map(ms.drop_last(), m);
        let rest = indexed_members(ms.drop_last(), m);
        if m.contains_key(ms.last()) {
            let im = rest.push(m[ms.last()]);
            assert forall|j: int| 0 <= j < im.len() implies m.contains_key(#[trigger] im[j].guid@) && m[im[j].guid@] == im[j] by {
                if j < rest.len() {
                    assert(im[j] == rest[j]);
                }
            }
        }
    }
}

impl Default for PhotoIndex {
    fn default() -> (r: PhotoIndex)
        ensures
            r.wf(),
            r@ == Map::<Seq<char>, IndexedPhoto>::empty(),
            r.galleries@.len() == 0,
    {
        PhotoIndex::new()
    }
}

} // verus!
