//! The per-photo processor: the index entry of a downloaded photo, with
//! metadata and place added where they could be had. Metadata and place
//! failures are not fatal; the entry is built without them.

use vstd::prelude::*;
use crate::album::copy_photo;
use crate::geocode::{MockGeocodingService, mock_place};
use crate::index::{bare, carries_exif, from_remote};
use crate::model::{ExifMetadata, IndexedPhoto, Photo};

verus! {

/// The place field of an entry built with metadata `e`: resolved when the
/// metadata has both coordinates, absent otherwise.
pub open spec fn place_resolved(r: IndexedPhoto, e: ExifMetadata) -> bool {
    match (e.latitude, e.longitude) {
        (Some(lat), Some(lon)) => r.location matches Some(l) && mock_place(l, lat as int, lon as int),
        _ => r.location is None,
    }
}

/// The index entry of a photo downloaded to `local_path`: the remote
/// fields, then the metadata when extraction succeeded, then the place of
/// its coordinates when it has both.
pub fn build_indexed_photo(
    photo: &Photo,
    local_path: String,
    exif: Result<ExifMetadata, String>,
    geocoder: &MockGeocodingService,
) -> (r: IndexedPhoto)
    ensures
        from_remote(r, *photo),
        r.local_path == local_path,
        r.last_sync.wf(),
        match exif {
            Ok(e) => carries_exif(r, e) && place_resolved(r, e),
            Err(_) => bare(r),
        },
{
    let p = copy_photo(photo);
    let mut entry = IndexedPhoto::new(
        p.guid,
        p.filename,
        p.caption,
        p.created_at,
        p.checksum,
        p.url,
        p.width,
        p.height,
        p.mime_type,
        local_path,
    );
    match exif {
        Ok(e) => {
            entry.update_exif(&e);
            match (e.latitude, e.longitude) {
                (Some(lat), Some(lon)) => match geocoder.reverse_geocode(lat, lon) {
                    Ok(place) => entry.update_location(place),
                    Err(_) => {},
                },
                _ => {},
            }
        },
        Err(_) => {},
    }
    entry
}

} // verus!
