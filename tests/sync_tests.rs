use icloudalbum2hugo::album::Album;
use icloudalbum2hugo::classify::classify;
use icloudalbum2hugo::datetime::DateTime;
use icloudalbum2hugo::geocode::MockGeocodingService;
use icloudalbum2hugo::index::PhotoIndex;
use icloudalbum2hugo::model::{ExifMetadata, Gallery, Photo, SyncResult};
use icloudalbum2hugo::process::build_indexed_photo;
use icloudalbum2hugo::render::create_index_md;
use icloudalbum2hugo::sync::{apply_delete_outcomes, apply_sync_outcomes, DeleteOutcome, ProcessOutcome};

fn when() -> DateTime {
    DateTime { year: 2023, month: 6, day: 1, hour: 9, minute: 15, second: 0 }
}

fn remote(guid: &str, checksum: &str) -> Photo {
    Photo {
        guid: guid.to_string(),
        filename: format!("{}.jpg", guid),
        caption: Some(format!("Caption for {}", guid)),
        created_at: when(),
        checksum: checksum.to_string(),
        url: format!("https://example.com/{}.jpg", guid),
        width: 800,
        height: 600,
        mime_type: "image/jpeg".to_string(),
    }
}

fn album_of(photos: &[(&str, &str)]) -> Album {
    let mut album = Album::new("Test Album".to_string());
    for (g, c) in photos {
        album.insert_photo(remote(g, c));
    }
    album
}

fn synced(p: &Photo) -> ProcessOutcome {
    let path = format!("content/{}/original.jpg", p.guid);
    ProcessOutcome::Synced(build_indexed_photo(p, path, Err("no metadata".to_string()), &MockGeocodingService))
}

/// Runs one photostream pass in order: deletions, then processing, where
/// `fail` names the photos whose download fails.
fn run_pass(album: &Album, index: &mut PhotoIndex, fail: &[&str]) -> Vec<SyncResult> {
    let c = classify(album, index);
    let dels: Vec<DeleteOutcome> =
        c.orphaned.iter().map(|g| DeleteOutcome { guid: g.clone(), error: None }).collect();
    let mut results = apply_delete_outcomes(index, dels);
    for g in &c.unchanged {
        results.push(SyncResult::Unchanged(g.clone()));
    }
    let mut outs = Vec::new();
    for p in c.new.iter().chain(c.changed.iter()) {
        if fail.contains(&p.guid.as_str()) {
            outs.push(ProcessOutcome::Failed(p.guid.clone(), "Failed to sync photo: download refused".to_string()));
        } else {
            outs.push(synced(p));
        }
    }
    results.extend(apply_sync_outcomes(index, outs));
    results
}

fn count(rs: &[SyncResult], f: fn(&SyncResult) -> bool) -> usize {
    rs.iter().filter(|r| f(r)).count()
}

#[test]
fn new_photos_are_added() {
    let album = album_of(&[("p1", "a"), ("p2", "b")]);
    let mut index = PhotoIndex::new();
    let results = run_pass(&album, &mut index, &[]);
    assert_eq!(results.len(), 2);
    assert_eq!(count(&results, |r| matches!(r, SyncResult::Added(_))), 2);
    assert_eq!(index.photo_count(), 2);
    let pages: Vec<String> = ["p1", "p2"].iter().map(|g| create_index_md(index.get_photo(g).unwrap())).collect();
    assert_eq!(pages.len(), 2);
    assert!(pages[0].contains("guid: p1\n"));
    assert!(pages[1].contains("guid: p2\n"));
}

#[test]
fn second_pass_without_changes_is_idle() {
    let album = album_of(&[("p1", "a"), ("p2", "b"), ("p3", "c")]);
    let mut index = PhotoIndex::new();
    run_pass(&album, &mut index, &[]);
    let second = run_pass(&album, &mut index, &[]);
    assert_eq!(second.len(), 3);
    assert!(second.iter().all(|r| matches!(r, SyncResult::Unchanged(_))));
}

#[test]
fn changed_checksum_updates_the_entry() {
    let mut index = PhotoIndex::new();
    run_pass(&album_of(&[("p1", "c1")]), &mut index, &[]);
    let album = album_of(&[("p1", "c2")]);
    let c = classify(&album, &index);
    assert_eq!(c.changed.len(), 1);
    assert!(c.new.is_empty() && c.unchanged.is_empty() && c.orphaned.is_empty());
    let results = run_pass(&album, &mut index, &[]);
    assert!(matches!(&results[0], SyncResult::Updated(g) if g == "p1"));
    assert_eq!(index.get_photo("p1").unwrap().checksum, "c2");
}

#[test]
fn one_failed_download_is_isolated() {
    let album = album_of(&[("p1", "a"), ("p2", "b"), ("p3", "c"), ("p4", "d")]);
    let mut index = PhotoIndex::new();
    let results = run_pass(&album, &mut index, &["p3"]);
    assert_eq!(count(&results, |r| matches!(r, SyncResult::Failed(_, _))), 1);
    assert_eq!(count(&results, |r| matches!(r, SyncResult::Added(_))), 3);
    assert_eq!(index.photo_count(), 3);
    assert!(index.get_photo("p3").is_none());
}

#[test]
fn unchanged_and_orphaned_photos() {
    let mut index = PhotoIndex::new();
    run_pass(&album_of(&[("p1", "a"), ("p3", "x")]), &mut index, &[]);
    let album = album_of(&[("p1", "a")]);
    let results = run_pass(&album, &mut index, &[]);
    assert_eq!(results.len(), 2);
    assert!(results.iter().any(|r| matches!(r, SyncResult::Unchanged(g) if g == "p1")));
    assert!(results.iter().any(|r| matches!(r, SyncResult::Deleted(g) if g == "p3")));
    assert_eq!(index.photo_count(), 1);
    assert!(index.get_photo("p3").is_none());
}

#[test]
fn failed_deletion_keeps_the_entry() {
    let mut index = PhotoIndex::new();
    run_pass(&album_of(&[("p1", "a"), ("p2", "b")]), &mut index, &[]);
    let mut g = Gallery::new("g".to_string(), "G".to_string(), "g".to_string(), None);
    g.add_photo("p1".to_string());
    g.add_photo("p2".to_string());
    index.add_or_update_gallery(g);
    let results = apply_delete_outcomes(
        &mut index,
        vec![
            DeleteOutcome { guid: "p1".to_string(), error: Some("busy".to_string()) },
            DeleteOutcome { guid: "p2".to_string(), error: None },
        ],
    );
    assert!(matches!(&results[0], SyncResult::Failed(g, e) if g == "p1" && e == "busy"));
    assert!(matches!(&results[1], SyncResult::Deleted(g) if g == "p2"));
    assert!(index.get_photo("p1").is_some());
    assert_eq!(index.get_gallery("g").unwrap().photos, vec!["p1".to_string()]);
}

#[test]
fn metadata_and_place_are_added_when_available() {
    let p = remote("p1", "a");
    let exif = ExifMetadata {
        camera_make: Some("Acme".to_string()),
        camera_model: Some("X100".to_string()),
        latitude: Some(41_878_100),
        longitude: Some(-87_629_800),
        ..Default::default()
    };
    let r = build_indexed_photo(&p, "x".to_string(), Ok(exif), &MockGeocodingService);
    assert_eq!(r.camera_make, Some("Acme".to_string()));
    assert_eq!(r.location.unwrap().city, Some("Chicago".to_string()));
    let bare = build_indexed_photo(&p, "x".to_string(), Err("unreadable".to_string()), &MockGeocodingService);
    assert!(bare.camera_make.is_none() && bare.location.is_none());
    assert_eq!(bare.checksum, "a");
}
