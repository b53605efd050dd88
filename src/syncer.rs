//! The two sync strategies' settings and the paths they write to. The
//! strategies run their I/O outside the library; the decisions they make
//! are the library's.

use vstd::prelude::*;
use crate::config::PrivacyConfig;
use crate::index::{join_path, joined};

verus! {

/// Concurrency ceilings of the photostream strategy.
pub const DELETE_CONCURRENCY: usize = 10;
pub const PROCESS_CONCURRENCY: usize = 8;

/// The photostream strategy: one page bundle per photo under
/// `<content_dir>/<guid>/`.
#[derive(Clone, Debug)]
pub struct Syncer {
    pub content_dir: String,
    pub index_path: String,
}

impl Syncer {
    pub fn new(content_dir: String, index_path: String) -> (r: Syncer)
        ensures
            r.content_dir == content_dir,
            r.index_path == index_path,
    {
        Syncer { content_dir, index_path }
    }

    /// The bundle directory of a photo.
    pub fn photo_dir(&self, guid: &str) -> (r: String)
        ensures
            r@ == joined(self.content_dir@, guid@),
    {
        join_path(self.content_dir.as_str(), guid)
    }

    /// Where a photo's downloaded content goes.
    pub fn image_path(&self, guid: &str) -> (r: String)
        ensures
            r@ == joined(joined(self.content_dir@, guid@), "original.jpg"@),
    {
        let dir = self.photo_dir(guid);
        join_path(dir.as_str(), "original.jpg")
    }

    /// Where a photo's page goes.
    pub fn page_path(&self, guid: &str) -> (r: String)
        ensures
            r@ == joined(joined(self.content_dir@, guid@), "index.md"@),
    {
        let dir = self.photo_dir(guid);
        join_path(dir.as_str(), "index.md")
    }
}

/// The gallery strategy: one bundle for the album under `content_dir`.
#[derive(Clone, Debug)]
pub struct GallerySyncer {
    pub content_dir: String,
    pub gallery_name: String,
    pub gallery_description: Option<String>,
    pub index_path: String,
    pub privacy_config: PrivacyConfig,
}

impl GallerySyncer {
    /// A gallery strategy; the name defaults to `Gallery`, which stands for
    /// the album's own name.
    pub fn new(
        content_dir: String,
        gallery_name: Option<String>,
        gallery_description: Option<String>,
        index_path: String,
        privacy_config: PrivacyConfig,
    ) -> (r: GallerySyncer)
        ensures
            r.content_dir == content_dir,
            r.gallery_name@ == (match gallery_name {
                Some(n) => n@,
                None => "Gallery"@,
            }),
            r.gallery_description == gallery_description,
            r.index_path == index_path,
            r.privacy_config == privacy_config,
    {
        let name = match gallery_name {
            Some(n) => n,
            None => "Gallery".to_owned(),
        };
        GallerySyncer { content_dir, gallery_name: name, gallery_description, index_path, privacy_config }
    }

    /// Where a photo's content goes in the gallery directory.
    pub fn photo_path(&self, guid: &str) -> (r: String)
        ensures
            r@ == joined(self.content_dir@, guid@ + ".jpg"@),
    {
        let mut name = guid.to_owned();
        name.append(".jpg");
        join_path(self.content_dir.as_str(), name.as_str())
    }

    /// Where the gallery page goes.
    pub fn page_path(&self) -> (r: String)
        ensures
            r@ == joined(self.content_dir@, "index.md"@),
    {
        join_path(self.content_dir.as_str(), "index.md")
    }
}

} // verus!
