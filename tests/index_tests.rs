use icloudalbum2hugo::album::Album;
use icloudalbum2hugo::datetime::{now, DateTime};
use icloudalbum2hugo::index::{convert_to_indexed_photo, join_path, PhotoIndex};
use icloudalbum2hugo::model::{Gallery, IndexedPhoto, Photo};

fn day(year: i32, month: u32, d: u32) -> DateTime {
    DateTime { year, month, day: d, hour: 12, minute: 0, second: 0 }
}

fn create_test_photo() -> IndexedPhoto {
    IndexedPhoto::new(
        "test_guid_123".to_string(),
        "test_image.jpg".to_string(),
        Some("Test Caption".to_string()),
        now(),
        "abcdef1234567890".to_string(),
        "https://example.com/test.jpg".to_string(),
        1920,
        1080,
        "image/jpeg".to_string(),
        "/content/photostream/test_photo/original.jpg".to_string(),
    )
}

#[test]
fn test_new_index() {
    let index = PhotoIndex::new();
    assert!(index.photos.is_empty());
    assert_eq!(index.photo_count(), 0);
    assert_eq!(index.gallery_count(), 0);
}

#[test]
fn test_add_update_remove_photo() {
    let mut index = PhotoIndex::new();
    let photo = create_test_photo();

    index.add_or_update_photo(photo.clone());
    assert_eq!(index.photo_count(), 1);

    let retrieved = index.get_photo(&photo.guid).unwrap();
    assert_eq!(retrieved.filename, "test_image.jpg");

    let mut updated_photo = photo.clone();
    updated_photo.caption = Some("Updated Caption".to_string());
    index.add_or_update_photo(updated_photo);
    assert_eq!(index.photo_count(), 1);

    let retrieved = index.get_photo(&photo.guid).unwrap();
    assert_eq!(retrieved.caption, Some("Updated Caption".to_string()));

    let removed = index.remove_photo(&photo.guid).unwrap();
    assert_eq!(removed.guid, photo.guid);
    assert_eq!(index.photo_count(), 0);
    assert!(index.get_photo(&photo.guid).is_none());
}

#[test]
fn test_photo_index_gallery_operations() {
    let mut index = PhotoIndex::new();

    let gallery = Gallery::new(
        "gallery1".to_string(),
        "Test Gallery".to_string(),
        "test-gallery".to_string(),
        Some("Test Gallery Description".to_string()),
    );

    index.add_or_update_gallery(gallery);
    assert_eq!(index.gallery_count(), 1);

    let retrieved = index.get_gallery("gallery1").unwrap();
    assert_eq!(retrieved.name, "Test Gallery");
    assert_eq!(retrieved.slug, "test-gallery");
    assert_eq!(retrieved.description, Some("Test Gallery Description".to_string()));

    let mut updated_gallery = retrieved.clone();
    updated_gallery.add_photo("photo1".to_string());
    index.add_or_update_gallery(updated_gallery);

    let updated = index.get_gallery("gallery1").unwrap();
    assert_eq!(updated.photos.len(), 1);
    assert_eq!(updated.photos[0], "photo1");

    let removed = index.remove_gallery("gallery1");
    assert!(removed.is_some());
    assert_eq!(index.gallery_count(), 0);
}

#[test]
fn gallery_new_has_fresh_uuid_and_no_members() {
    let a = Gallery::new("g1".to_string(), "A".to_string(), "a".to_string(), None);
    let b = Gallery::new("g2".to_string(), "B".to_string(), "b".to_string(), None);
    assert_eq!(a.uuid.len(), 36);
    assert_ne!(a.uuid, b.uuid);
    assert!(a.photos.is_empty());
}

#[test]
fn gallery_add_photo_ignores_duplicates() {
    let mut g = Gallery::new("g".to_string(), "G".to_string(), "g".to_string(), None);
    g.add_photo("p1".to_string());
    g.add_photo("p2".to_string());
    g.add_photo("p1".to_string());
    assert_eq!(g.photos, vec!["p1".to_string(), "p2".to_string()]);
    g.remove_photo("p1");
    assert_eq!(g.photos, vec!["p2".to_string()]);
    g.remove_photo("missing");
    assert_eq!(g.photos, vec!["p2".to_string()]);
}

#[test]
fn removing_a_photo_cascades_into_every_gallery() {
    let mut index = PhotoIndex::new();
    let mut p = create_test_photo();
    p.guid = "p1".to_string();
    index.add_or_update_photo(p);
    let mut q = create_test_photo();
    q.guid = "p2".to_string();
    index.add_or_update_photo(q);

    let mut g1 = Gallery::new("g1".to_string(), "One".to_string(), "one".to_string(), None);
    g1.add_photo("p1".to_string());
    g1.add_photo("p2".to_string());
    let mut g2 = Gallery::new("g2".to_string(), "Two".to_string(), "two".to_string(), None);
    g2.add_photo("p1".to_string());
    index.add_or_update_gallery(g1);
    index.add_or_update_gallery(g2);

    let removed = index.remove_photo("p1");
    assert!(removed.is_some());
    assert_eq!(index.get_gallery("g1").unwrap().photos, vec!["p2".to_string()]);
    assert!(index.get_gallery("g2").unwrap().photos.is_empty());

    let listed = index.get_gallery_photos("g1");
    assert_eq!(listed.len(), 1);
    assert_eq!(listed[0].guid, "p2");
    assert!(index.get_gallery_photos("g2").is_empty());
    assert!(index.get_gallery_photos("nope").is_empty());
    assert!(index.remove_photo("p1").is_none());
}

#[test]
fn removing_a_gallery_keeps_its_photos() {
    let mut index = PhotoIndex::new();
    index.add_or_update_photo(create_test_photo());
    let mut g = Gallery::new("g".to_string(), "G".to_string(), "g".to_string(), None);
    g.add_photo("test_guid_123".to_string());
    index.add_or_update_gallery(g);
    assert!(index.remove_gallery("g").is_some());
    assert_eq!(index.photo_count(), 1);
    assert!(index.remove_gallery("g").is_none());
}

#[test]
fn well_formedness_check_finds_duplicate_guids() {
    let mut index = PhotoIndex::new();
    index.add_or_update_photo(create_test_photo());
    assert!(index.is_well_formed());
    index.photos.push(create_test_photo());
    assert!(!index.is_well_formed());
}

#[test]
fn convert_to_indexed_photo_places_the_original_under_the_photo_dir() {
    let photo = Photo {
        guid: "g1".to_string(),
        filename: "g1.jpg".to_string(),
        caption: None,
        created_at: day(2023, 1, 1),
        checksum: "c".to_string(),
        url: "https://example.com/g1.jpg".to_string(),
        width: 10,
        height: 20,
        mime_type: "image/png".to_string(),
    };
    let r = convert_to_indexed_photo(&photo, "content/photostream", "g1");
    assert_eq!(r.local_path, "content/photostream/g1/original.jpg");
    assert_eq!(r.guid, "g1");
    assert_eq!(r.checksum, "c");
    assert_eq!(r.mime_type, "image/png");
    assert!(r.location.is_none());
    assert_eq!(join_path("a/", "b"), "a/b");
    assert_eq!(join_path("", "b"), "b");
}

#[test]
fn test_album_new() {
    let album = Album::new("Test Album".to_string());
    assert_eq!(album.name, "Test Album");
    assert_eq!(album.photo_count(), 0);
}

use icloudalbum2hugo::syncer::{GallerySyncer, Syncer};
use icloudalbum2hugo::config::PrivacyConfig;

#[test]
fn syncer_paths() {
    let s = Syncer::new("content/photostream".to_string(), "data/index.yaml".to_string());
    assert_eq!(s.image_path("p1"), "content/photostream/p1/original.jpg");
    assert_eq!(s.page_path("p1"), "content/photostream/p1/index.md");
    let g = GallerySyncer::new("content/g/".to_string(), None, None, "i.yaml".to_string(), PrivacyConfig::default());
    assert_eq!(g.gallery_name, "Gallery");
    assert_eq!(g.photo_path("p1"), "content/g/p1.jpg");
    assert_eq!(g.page_path(), "content/g/index.md");
}
