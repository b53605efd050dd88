use icloudalbum2hugo::album::Album;
use icloudalbum2hugo::datetime::DateTime;
use icloudalbum2hugo::gallery::{
    apply_gallery_outcomes, effective_gallery_name, ensure_gallery, get_or_create_gallery_id, plan_gallery,
    slugify_name,
};
use icloudalbum2hugo::geocode::MockGeocodingService;
use icloudalbum2hugo::index::PhotoIndex;
use icloudalbum2hugo::model::{Photo, SyncResult};
use icloudalbum2hugo::process::build_indexed_photo;
use icloudalbum2hugo::sync::ProcessOutcome;

fn create_test_photo(guid: &str) -> Photo {
    Photo {
        guid: guid.to_string(),
        filename: format!("{}.jpg", guid),
        caption: Some(format!("Caption for {}", guid)),
        created_at: DateTime { year: 2023, month: 5, day: 6, hour: 7, minute: 8, second: 9 },
        checksum: format!("checksum_{}", guid),
        url: format!("https://example.com/{}.jpg", guid),
        width: 800,
        height: 600,
        mime_type: "image/jpeg".to_string(),
    }
}

fn create_test_album(name: &str, photo_count: usize) -> Album {
    let mut album = Album::new(name.to_string());
    for i in 0..photo_count {
        album.insert_photo(create_test_photo(&format!("photo{}", i + 1)));
    }
    album
}

fn gallery_pass(album: &Album, index: &mut PhotoIndex, name: &str) -> Vec<SyncResult> {
    let gallery_name = effective_gallery_name(name, &album.name);
    let id = get_or_create_gallery_id(index, &gallery_name);
    let k = ensure_gallery(index, &id, &gallery_name, &Some("Test Description".to_string()));
    let plan = plan_gallery(album, index, &index.galleries[k].clone());
    let build = |p: &Photo| {
        ProcessOutcome::Synced(build_indexed_photo(p, format!("content/{}.jpg", p.guid), Err(String::new()), &MockGeocodingService))
    };
    let added = plan.to_add.iter().map(build).collect();
    let updated = plan.to_update.iter().map(build).collect();
    apply_gallery_outcomes(index, k, added, updated, plan.to_remove, plan.unchanged)
}

#[test]
fn gallery_is_created_and_filled() {
    let album = create_test_album("Test Album", 2);
    let mut index = PhotoIndex::new();
    let results = gallery_pass(&album, &mut index, "Test Gallery");
    assert_eq!(results.len(), 2);
    assert!(results.iter().all(|r| matches!(r, SyncResult::Added(_))));
    assert_eq!(index.gallery_count(), 1);
    let g = &index.galleries[0];
    assert_eq!(g.name, "Test Gallery");
    assert_eq!(g.slug, "test-gallery");
    assert!(g.id.starts_with("gallery_"));
    assert!(g.id.len() > 20);
    assert!(g.uuid.len() > 10);
    assert_eq!(g.photos, vec!["photo1".to_string(), "photo2".to_string()]);
    assert_eq!(index.photo_count(), 2);
}

#[test]
fn gallery_is_reused_by_name_and_mirrors_the_album() {
    let mut index = PhotoIndex::new();
    gallery_pass(&create_test_album("Test Album", 3), &mut index, "Gallery");
    assert_eq!(index.galleries[0].name, "Test Album");

    let mut album = create_test_album("Test Album", 2);
    album.insert_photo(create_test_photo("photo4"));
    let results = gallery_pass(&album, &mut index, "Gallery");
    assert_eq!(index.gallery_count(), 1);
    assert!(results.iter().any(|r| matches!(r, SyncResult::Added(g) if g == "photo4")));
    assert!(results.iter().any(|r| matches!(r, SyncResult::Deleted(g) if g == "photo3")));
    assert_eq!(results.iter().filter(|r| matches!(r, SyncResult::Unchanged(_))).count(), 2);
    let members = &index.galleries[0].photos;
    assert!(members.contains(&"photo4".to_string()));
    assert!(!members.contains(&"photo3".to_string()));
    assert!(index.get_photo("photo3").is_some());
}

#[test]
fn slugs_and_names() {
    assert_eq!(slugify_name("Privacy Test Gallery"), "privacy-test-gallery");
    assert_eq!(effective_gallery_name("Gallery", "Album A"), "Album A");
    assert_eq!(effective_gallery_name("Mine", "Album A"), "Mine");
}
