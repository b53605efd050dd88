//! The three-way diff between the remote album and the local index.

use vstd::prelude::*;
use crate::album::{Album, copy_photo, has_guid};
use crate::index::{PhotoIndex, unique_guids, lemma_photo_map_lookup};
use crate::model::{IndexedPhoto, Photo, views};
use crate::text::str_eq;

verus! {

/// How a remote photo stands against the index.
pub enum Class {
    /// Not in the index.
    New,
    /// In the index with another checksum.
    Changed,
    /// In the index with the same checksum.
    Unchanged,
}

pub open spec fn class_of(m: Map<Seq<char>, IndexedPhoto>, p: Photo) -> Class {
    if !m.contains_key(p.guid@) {
        Class::New
    } else if m[p.guid@].checksum@ != p.checksum@ {
        Class::Changed
    } else {
        Class::Unchanged
    }
}

/// The remote photos of class `c`, in album order.
pub open spec fn of_class(ps: Seq<Photo>, m: Map<Seq<char>, IndexedPhoto>, c: Class) -> Seq<Photo>
    decreases ps.len(),
{
    if ps.len() == 0 {
        Seq::empty()
    } else {
        let rest = of_class(ps.drop_last(), m, c);
        if class_of(m, ps.last()) == c {
            rest.push(ps.last())
        } else {
            rest
        }
    }
}

/// The guids of a sequence of photos.
pub open spec fn guids(ps: Seq<Photo>) -> Seq<Seq<char>> {
    ps.map_values(|p: Photo| p.guid@)
}

/// The guids of indexed photos that the album lacks, in index order.
pub open spec fn orphans(ps: Seq<IndexedPhoto>, album: Seq<Photo>) -> Seq<Seq<char>>
    decreases ps.len(),
{
    if ps.len() == 0 {
        Seq::empty()
    } else {
        let rest = orphans(ps.drop_last(), album);
        if has_guid(album, ps.last().guid@) {
            rest
        } else {
            rest.push(ps.last().guid@)
        }
    }
}

/// The result of the diff.
pub struct Classification {
    pub new: Vec<Photo>,
    pub changed: Vec<Photo>,
    pub unchanged: Vec<String>,
    pub orphaned: Vec<String>,
}

/// Partitions the album's photos into new, changed and unchanged against
/// the index, and lists the indexed guids that the album no longer has.
pub fn classify(album: &Album, index: &PhotoIndex) -> (c: Classification)
    requires
        index.wf(),
    ensures
        c.new@ == of_class(album.photos@, index@, Class::New),
        c.changed@ == of_class(album.photos@, index@, Class::Changed),
        views(c.unchanged@) == guids(of_class(album.photos@, index@, Class::Unchanged)),
        views(c.orphaned@) == orphans(index.photos@, album.photos@),
{
    let ghost m = index@;
    let ghost ps = album.photos@;
    let mut new: Vec<Photo> = Vec::new();
    let mut changed: Vec<Photo> = Vec::new();
    let mut unchanged: Vec<String> = Vec::new();
    let mut i: usize = 0;
    while i < album.photos.len()
        invariant
            i <= album.photos.len(),
            ps == album.photos@,
            m == index@,
            index.wf(),
            new@ == of_class(ps.subrange(0, i as int), m, Class::New),
            changed@ == of_class(ps.subrange(0, i as int), m, Class::Changed),
            views(unchanged@) == guids(of_class(ps.subrange(0, i as int), m, Class::Unchanged)),
        decreases album.photos.len() - i,
    {
        let p = &album.photos[i];
        assert(ps.subrange(0, i + 1).drop_last() =~= ps.subrange(0, i as int));
        assert(ps.subrange(0, i + 1).last() == ps[i as int]);
        match index.find_photo(p.guid.as_str()) {
            None => {
                new.push(copy_photo(p));
            },
            Some(k) => {
                if str_eq(index.photos[k].checksum.as_str(), p.checksum.as_str()) {
                    let ghost before = unchanged@;
                    unchanged.push(p.guid.clone());
                    assert(views(unchanged@) =~= views(before).push(p.guid@));
                    assert(guids(of_class(ps.subrange(0, i + 1), m, Class::Unchanged)) =~= guids(
                        of_class(ps.subrange(0, i as int), m, Class::Unchanged),
                    ).push(p.guid@));
                } else {
                    changed.push(copy_photo(p));
                }
            },
        }
        i = i + 1;
    }
    assert(ps.subrange(0, ps.len() as int) =~= ps);
    let ghost ips = index.photos@;
    let mut orphaned: Vec<String> = Vec::new();
    let mut j: usize = 0;
    while j < index.photos.len()
        invariant
            j <= index.photos.len(),
            ips == index.photos@,
            ps == album.photos@,
            views(orphaned@) == orphans(ips.subrange(0, j as int), ps),
        decreases index.photos.len() - j,
    {
        let q = &index.photos[j];
        assert(ips.subrange(0, j + 1).drop_last() =~= ips.subrange(0, j as int));
        assert(ips.subrange(0, j + 1).last() == ips[j as int]);
        match album.find(q.guid.as_str()) {
            Some(_) => {},
            None => {
                let ghost before = orphaned@;
                orphaned.push(q.guid.clone());
                assert(views(orphaned@) =~= views(before).push(q.guid@));
            },
        }
        j = j + 1;
    }
    assert(ips.subrange(0, ips.len() as int) =~= ips);
    Classification { new, changed, unchanged, orphaned }
}

proof fn lemma_of_class_contains(ps: Seq<Photo>, m: Map<Seq<char>, IndexedPhoto>, c: Class, p: Photo)
    ensures
        of_class(ps, m, c).contains(p) <==> ps.contains(p) && class_of(m, p) == c,
    decreases ps.len(),
{
    if ps.len() > 0 {
        let d = ps.drop_last();
        lemma_of_class_contains(d, m, c, p);
        assert(ps =~= d.push(ps.last()));
        if ps.contains(p) && p != ps.last() {
            let i = choose|i: int| 0 <= i < ps.len() && ps[i] == p;
            assert(d[i] == p);
        }
        if d.contains(p) {
            let i = choose|i: int| 0 <= i < d.len() && d[i] == p;
            assert(ps[i] == p);
        }
        if ps.last() == p {
            assert(ps[ps.len() - 1] == p);
        }
        let rest = of_class(d, m, c);
        if class_of(m, ps.last()) == c {
            assert(rest.push(ps.last())[rest.len() as int] == ps.last());
            if rest.push(ps.last()).contains(p) && p != ps.last() {
                let i = choose|i: int| 0 <= i < rest.len() + 1 && rest.push(ps.last())[i] == p;
                assert(rest[i] == p);
            }
            if rest.contains(p) {
                let i = choose|i: int| 0 <= i < rest.len() && rest[i] == p;
                assert(rest.push(ps.last())[i] == p);
            }
        }
    }
}

proof fn lemma_of_class_lens(ps: Seq<Photo>, m: Map<Seq<char>, IndexedPhoto>)
    ensures
        of_class(ps, m, Class::New).len() + of_class(ps, m, Class::Changed).len() + of_class(
            ps,
            m,
            Class::Unchanged,
        ).len() == ps.len(),
    decreases ps.len(),
{
    if ps.len() > 0 {
        lemma_of_class_lens(ps.drop_last(), m);
    }
}

proof fn lemma_orphans_contains(ps: Seq<IndexedPhoto>, album: Seq<Photo>, g: Seq<char>)
    ensures
        orphans(ps, album).contains(g) <==> (exists|i: int| 0 <= i < ps.len() && ps[i].guid@ == g)
            && !has_guid(album, g),
    decreases ps.len(),
{
    if ps.len() > 0 {
        let d = ps.drop_last();
        lemma_orphans_contains(d, album, g);
        let rest = orphans(d, album);
        if exists|i: int| 0 <= i < ps.len() && ps[i].guid@ == g {
            let i = choose|i: int| 0 <= i < ps.len() && ps[i].guid@ == g;
            if i < d.len() {
                assert(d[i].guid@ == g);
            }
        }
        if exists|i: int| 0 <= i < d.len() && d[i].guid@ == g {
            let i = choose|i: int| 0 <= i < d.len() && d[i].guid@ == g;
            assert(ps[i].guid@ == g);
        }
        if !has_guid(album, ps.last().guid@) {
            let r2 = rest.push(ps.last().guid@);
            assert(r2[rest.len() as int] == ps.last().guid@);
            if r2.contains(g) && g != ps.last().guid@ {
                let i = choose|i: int| 0 <= i < r2.len() && r2[i] == g;
                assert(rest[i] == g);
            }
            if rest.contains(g) {
                let i = choose|i: int| 0 <= i < rest.len() && rest[i] == g;
                assert(r2[i] == g);
            }
        }
    }
}

proof fn lemma_orphans_distinct(ps: Seq<IndexedPhoto>, album: Seq<Photo>)
    requires
        unique_guids(ps),
    ensures
        orphans(ps, album).no_duplicates(),
    decreases ps.len(),
{
    if ps.len() > 0 {
        let d = ps.drop_last();
        crate::index::lemma_unique_drop_last(ps);
        lemma_orphans_distinct(d, album);
        let g = ps.last().guid@;
        lemma_orphans_contains(d, album, g);
        if exists|i: int| 0 <= i < d.len() && d[i].guid@ == g {
            let i = choose|i: int| 0 <= i < d.len() && d[i].guid@ == g;
            assert(ps[i].guid@ == ps[ps.len() - 1].guid@);
        }
        let rest = orphans(d, album);
        if !has_guid(album, g) {
            let r2 = rest.push(g);
            assert forall|a: int, b: int| 0 <= a < r2.len() && 0 <= b < r2.len() && a != b implies r2[a] != r2[b] by {
                if a == rest.len() {
                    assert(rest[b] == r2[b]);
                    assert(rest.contains(r2[b]));
                }
                if b == rest.len() {
                    assert(rest[a] == r2[a]);
                    assert(rest.contains(r2[a]));
                }
            }
        }
    }
}

/// Every remote photo is exactly one of new, changed and unchanged, so the
/// three lists together are as long as the album; and an indexed guid is
/// listed as orphaned, once, exactly when the album lacks it.
pub proof fn lemma_classification_partitions(album: Album, index: PhotoIndex)
    requires
        index.wf(),
    ensures
        forall|i: int|
            0 <= i < album.photos.len() ==> {
                let p = #[trigger] album.photos@[i];
                let m = index@;
                &&& of_class(album.photos@, m, Class::New).contains(p) <==> class_of(m, p) == Class::New
                &&& of_class(album.photos@, m, Class::Changed).contains(p) <==> class_of(m, p) == Class::Changed
                &&& of_class(album.photos@, m, Class::Unchanged).contains(p) <==> class_of(m, p) == Class::Unchanged
            },
        of_class(album.photos@, index@, Class::New).len() + of_class(
            album.photos@,
            index@,
            Class::Changed,
        ).len() + of_class(album.photos@, index@, Class::Unchanged).len() == album.photos.len(),
        forall|g: Seq<char>|
            #[trigger] orphans(index.photos@, album.photos@).contains(g) <==> index@.contains_key(g)
                && !has_guid(album.photos@, g),
        orphans(index.photos@, album.photos@).no_duplicates(),
{
    let ps = album.photos@;
    let m = index@;
    assert forall|i: int| 0 <= i < album.photos.len() implies {
        let p = #[trigger] album.photos@[i];
        &&& of_class(ps, m, Class::New).contains(p) <==> class_of(m, p) == Class::New
        &&& of_class(ps, m, Class::Changed).contains(p) <==> class_of(m, p) == Class::Changed
        &&& of_class(ps, m, Class::Unchanged).contains(p) <==> class_of(m, p) == Class::Unchanged
    } by {
        let p = ps[i];
        assert(ps.contains(p));
        lemma_of_class_contains(ps, m, Class::New, p);
        lemma_of_class_contains(ps, m, Class::Changed, p);
        lemma_of_class_contains(ps, m, Class::Unchanged, p);
    }
    lemma_of_class_lens(ps, m);
    lemma_photo_map_lookup(index.photos@);
    assert forall|g: Seq<char>|
        #[trigger] orphans(index.photos@, ps).contains(g) <==> m.contains_key(g) && !has_guid(ps, g) by {
        lemma_orphans_contains(index.photos@, ps, g);
    }
    lemma_orphans_distinct(index.photos@, ps);
}

} // verus!
