//! The built-in sample album that test and example URLs resolve to.

use vstd::prelude::*;
use crate::album::Album;
use crate::datetime::{DateTime, now};
use crate::model::Photo;
use crate::text::{contains_seq, contains_str};

verus! {

pub const MOCK_ALBUM_NAME: &'static str = "Mock Test Album";

fn sample(guid: &str, filename: &str, caption: Option<&str>, checksum: &str, url: &str, width: u32, height: u32, at: DateTime) -> (r: Photo)
    ensures
        r.guid@ == guid@,
        r.filename@ == filename@,
        r.checksum@ == checksum@,
        r.url@ == url@,
        r.width == width,
        r.height == height,
        r.created_at == at,
        r.mime_type@ == "image/jpeg"@,
        match caption {
            Some(c) => r.caption matches Some(x) && x@ == c@,
            None => r.caption is None,
        },
{
    Photo {
        guid: guid.to_owned(),
        filename: filename.to_owned(),
        caption: match caption {
            Some(c) => Some(c.to_owned()),
            None => None,
        },
        created_at: at,
        checksum: checksum.to_owned(),
        url: url.to_owned(),
        width,
        height,
        mime_type: "image/jpeg".to_owned(),
    }
}

/// The sample album: three photos, `mock1` to `mock3`, created now.
pub fn create_mock_album() -> (r: Album)
    ensures
        r.wf(),
        r.name@ == MOCK_ALBUM_NAME@,
        r.photos@.len() == 3,
        r.photos@[0].guid@ == "mock1"@ && r.photos@[0].checksum@ == "mock_checksum_1"@,
        r.photos@[1].guid@ == "mock2"@ && r.photos@[1].checksum@ == "mock_checksum_2"@,
        r.photos@[2].guid@ == "mock3"@ && r.photos@[2].checksum@ == "mock_checksum_3"@,
{
    let at = now();
    let mut album = Album::new(MOCK_ALBUM_NAME.to_owned());
    let p1 = sample("mock1", "mock1.jpg", Some("Mock Photo 1"), "mock_checksum_1", "https://test.example/mock1.jpg", 1200, 800, at);
    let p2 = sample("mock2", "mock2.jpg", None, "mock_checksum_2", "https://test.example/mock2.jpg", 1920, 1080, at);
    let p3 = sample("mock3", "photo_with_no_caption.jpg", None, "mock_checksum_3", "https://test.example/mock3.jpg", 800, 600, at);
    proof {
        reveal_strlit("mock1");
        reveal_strlit("mock2");
        reveal_strlit("mock3");
    }
    album.photos.push(p1);
    album.photos.push(p2);
    album.photos.push(p3);
    assert("mock1"@[4] == '1' && "mock2"@[4] == '2' && "mock3"@[4] == '3');
    assert(album.photos@[0].guid@[4] != album.photos@[1].guid@[4]);
    assert(album.photos@[0].guid@[4] != album.photos@[2].guid@[4]);
    assert(album.photos@[1].guid@[4] != album.photos@[2].guid@[4]);
    assert(album.photos@[0].guid@ != album.photos@[1].guid@);
    assert(album.photos@[0].guid@ != album.photos@[2].guid@);
    assert(album.photos@[1].guid@ != album.photos@[2].guid@);
    album
}

pub open spec fn is_mock_url(u: Seq<char>) -> bool {
    contains_seq(u, "test"@) || contains_seq(u, "example"@) || contains_seq(u, "custom"@)
}

/// The sample album for a test, example or custom URL; an error for any
/// other URL.
pub fn mock_fetch_album(album_url: &str) -> (r: Result<Album, String>)
    ensures
        is_mock_url(album_url@) <==> r is Ok,
        r matches Ok(a) ==> a.name@ == MOCK_ALBUM_NAME@ && a.photos@.len() == 3,
        r matches Err(e) ==> e@ == "Only test URLs are supported in mock mode"@,
{
    if contains_str(album_url, "test") || contains_str(album_url, "example") || contains_str(album_url, "custom") {
        Ok(create_mock_album())
    } else {
        Err("Only test URLs are supported in mock mode".to_owned())
    }
}

} // verus!
