//! The value types: a remote photo, a remote album, a photo as the local
//! index keeps it, and a gallery of photo references.

use vstd::prelude::*;
use crate::datetime::DateTime;

verus! {

/// A place that a pair of coordinates resolves to.
#[derive(Clone, Debug, Default)]
pub struct Location {
    /// The full formatted address, such as `Chicago, IL, USA`.
    pub formatted_address: String,
    pub city: Option<String>,
    pub state: Option<String>,
    pub country: Option<String>,
}

impl Location {
    /// The text a location displays as: its formatted address.
    pub fn to_string(&self) -> (r: String)
        ensures
            r@ == self.formatted_address@,
    {
        self.formatted_address.as_str().to_owned()
    }
}

/// Metadata read from a photo's binary content. Coordinates are held in
/// millionths of a degree; aperture and focal length in tenths.
#[derive(Clone, Debug, Default)]
pub struct ExifMetadata {
    pub camera_make: Option<String>,
    pub camera_model: Option<String>,
    pub date_time: Option<DateTime>,
    pub latitude: Option<i64>,
    pub longitude: Option<i64>,
    pub fuzzed_latitude: Option<i64>,
    pub fuzzed_longitude: Option<i64>,
    pub iso: Option<u32>,
    pub exposure_time: Option<String>,
    pub f_number: Option<u32>,
    pub focal_length: Option<u32>,
}

/// A photo of the remote album.
#[derive(Clone, Debug)]
pub struct Photo {
    pub guid: String,
    pub filename: String,
    pub caption: Option<String>,
    pub created_at: DateTime,
    pub checksum: String,
    pub url: String,
    pub width: u32,
    pub height: u32,
    pub mime_type: String,
}

/// A photo as the local index records it.
#[derive(Clone, Debug)]
pub struct IndexedPhoto {
    pub guid: String,
    pub filename: String,
    pub caption: Option<String>,
    pub created_at: DateTime,
    /// The remote checksum at the last sync, used to detect changes.
    pub checksum: String,
    pub url: String,
    pub width: u32,
    pub height: u32,
    pub mime_type: String,
    pub last_sync: DateTime,
    pub local_path: String,
    pub camera_make: Option<String>,
    pub camera_model: Option<String>,
    pub exif_date_time: Option<DateTime>,
    pub latitude: Option<i64>,
    pub longitude: Option<i64>,
    pub fuzzed_latitude: Option<i64>,
    pub fuzzed_longitude: Option<i64>,
    pub iso: Option<u32>,
    pub exposure_time: Option<String>,
    pub f_number: Option<u32>,
    pub focal_length: Option<u32>,
    pub location: Option<Location>,
}

/// A named collection of photo references, rendered as one page bundle.
#[derive(Clone, Debug)]
pub struct Gallery {
    pub id: String,
    pub name: String,
    pub slug: String,
    pub description: Option<String>,
    /// Member guids, in order, without duplicates.
    pub photos: Vec<String>,
    pub uuid: String,
    pub created_at: DateTime,
    pub updated_at: DateTime,
}

/// The outcome of one photo in a sync pass.
#[derive(Clone, Debug)]
pub enum SyncResult {
    Added(String),
    Updated(String),
    Unchanged(String),
    Deleted(String),
    /// The guid and the reason.
    Failed(String, String),
}

/// The character views of a sequence of strings.
pub open spec fn views(s: Seq<String>) -> Seq<Seq<char>> {
    s.map_values(|x: String| x@)
}

impl Gallery {
    pub open spec fn members(&self) -> Seq<Seq<char>> {
        views(self.photos@)
    }

    pub open spec fn wf(&self) -> bool {
        self.members().no_duplicates()
    }
}

impl SyncResult {
    pub open spec fn is_added(&self) -> bool {
        self is Added
    }

    pub open spec fn is_updated(&self) -> bool {
        self is Updated
    }

    pub open spec fn is_deleted(&self) -> bool {
        self is Deleted
    }

    pub open spec fn is_failed(&self) -> bool {
        self is Failed
    }
}

} // verus!
