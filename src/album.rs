//! The remote album: a name and its photos, keyed by guid.

use vstd::prelude::*;
use crate::model::Photo;
use crate::text::str_eq;

verus! {

/// No two photos of the sequence share a guid.
pub open spec fn distinct_guids(ps: Seq<Photo>) -> bool {
    forall|i: int, j: int|
        0 <= i < ps.len() && 0 <= j < ps.len() && i != j ==> ps[i].guid@ != ps[j].guid@
}

/// Some photo of the sequence has guid `g`.
pub open spec fn has_guid(ps: Seq<Photo>, g: Seq<char>) -> bool {
    exists|i: int| 0 <= i < ps.len() && ps[i].guid@ == g
}

pub(crate) fn copy_text(s: &Option<String>) -> (r: Option<String>)
    ensures
        r == *s,
{
    match s {
        Some(x) => Some(x.clone()),
        None => None,
    }
}

/// A field-by-field copy of a photo.
pub fn copy_photo(p: &Photo) -> (r: Photo)
    ensures
        r == *p,
{
    Photo {
        guid: p.guid.clone(),
        filename: p.filename.clone(),
        caption: copy_text(&p.caption),
        created_at: p.created_at,
        checksum: p.checksum.clone(),
        url: p.url.clone(),
        width: p.width,
        height: p.height,
        mime_type: p.mime_type.clone(),
    }
}

/// A remote album.
#[derive(Clone, Debug)]
pub struct Album {
    pub name: String,
    /// The photos, at most one per guid.
    pub photos: Vec<Photo>,
}

impl Album {
    pub open spec fn wf(&self) -> bool {
        distinct_guids(self.photos@)
    }

    /// A new empty album.
    pub fn new(name: String) -> (r: Album)
        ensures
            r.name == name,
            r.photos@.len() == 0,
            r.wf(),
    {
        Album { name, photos: Vec::new() }
    }

    /// The number of photos.
    pub fn photo_count(&self) -> (r: usize)
        ensures
            r == self.photos@.len(),
    {
        self.photos.len()
    }

    /// The position of the photo with the given guid.
    pub fn find(&self, guid: &str) -> (r: Option<usize>)
        ensures
            match r {
                Some(i) => i < self.photos.len() && self.photos@[i as int].guid@ == guid@,
                None => !has_guid(self.photos@, guid@),
            },
    {
        let mut i: usize = 0;
        while i < self.photos.len()
            invariant
                i <= self.photos.len(),
                forall|j: int| 0 <= j < i ==> self.photos@[j].guid@ != guid@,
            decreases self.photos.len() - i,
        {
            if str_eq(self.photos[i].guid.as_str(), guid) {
                return Some(i);
            }
            i = i + 1;
        }
        None
    }

    /// Puts a photo under its guid, replacing a photo with the same guid.
    pub fn insert_photo(&mut self, photo: Photo)
        requires
            old(self).wf(),
        ensures
            final(self).wf(),
            final(self).name == old(self).name,
            (exists|i: int|
                0 <= i < old(self).photos.len() && old(self).photos@[i].guid@ == photo.guid@
                    && final(self).photos@ == old(self).photos@.update(i, photo)) || (!has_guid(
                old(self).photos@,
                photo.guid@,
            ) && final(self).photos@ == old(self).photos@.push(photo)),
    {
        let ghost p = photo;
        match self.find(photo.guid.as_str()) {
            Some(i) => {
                self.photos.remove(i);
                self.photos.insert(i, photo);
                assert(self.photos@ =~= old(self).photos@.update(i as int, p));
                assert forall|a: int, b: int|
                    0 <= a < self.photos.len() && 0 <= b < self.photos.len() && a != b implies self.photos@[a].guid@
                    != self.photos@[b].guid@ by {
                    assert(self.photos@[a].guid@ == old(self).photos@[a].guid@);
                    assert(self.photos@[b].guid@ == old(self).photos@[b].guid@);
                }
            },
            None => {
                self.photos.push(photo);
                assert forall|a: int, b: int|
                    0 <= a < self.photos.len() && 0 <= b < self.photos.len() && a != b implies self.photos@[a].guid@
                    != self.photos@[b].guid@ by {
                    if a < old(self).photos.len() && b == old(self).photos.len() {
                        assert(self.photos@[a] == old(self).photos@[a]);
                    }
                    if b < old(self).photos.len() && a == old(self).photos.len() {
                        assert(self.photos@[b] == old(self).photos@[b]);
                    }
                }
            },
        }
    }
}

} // verus!
