use icloudalbum2hugo::config::PrivacyConfig;
use icloudalbum2hugo::datetime::{civil_date_time, long_date, now, stamp, DateTime};
use icloudalbum2hugo::index::PhotoIndex;
use icloudalbum2hugo::model::{Gallery, IndexedPhoto, Location};
use icloudalbum2hugo::render::{
    compose_title, create_gallery_index, create_index_md, escape, extension_for, format_photo_title,
};

fn at(year: i32, month: u32, day: u32) -> DateTime {
    DateTime { year, month, day, hour: 15, minute: 30, second: 0 }
}

fn photo(guid: &str, mime: &str) -> IndexedPhoto {
    IndexedPhoto::new(
        guid.to_string(),
        format!("{}.jpg", guid),
        Some(format!("Caption for {}", guid)),
        at(2023, 1, 2),
        format!("checksum_{}", guid),
        format!("https://example.com/{}.jpg", guid),
        800,
        600,
        mime.to_string(),
        format!("content/{}.jpg", guid),
    )
}

fn chicago() -> Location {
    Location {
        formatted_address: "Chicago, IL, USA".to_string(),
        city: Some("Chicago".to_string()),
        state: Some("Illinois".to_string()),
        country: Some("United States".to_string()),
    }
}

#[test]
fn title_joins_date_place_and_camera() {
    let mut p = photo("p1", "image/jpeg");
    p.exif_date_time = Some(at(2023, 12, 25));
    p.location = Some(chicago());
    p.camera_make = Some("Acme".to_string());
    p.camera_model = Some("X100".to_string());
    assert_eq!(format_photo_title(&p), "December 25, 2023, Chicago, Acme X100");
}

#[test]
fn title_omits_missing_parts() {
    let p = photo("p1", "image/jpeg");
    assert_eq!(format_photo_title(&p), "January  2, 2023");
    let t = compose_title("May 1, 2020", &None, &None, &Some("Phone".to_string()));
    assert_eq!(t, "May 1, 2020, Phone");
    let addr_only = Location { formatted_address: "Somewhere".to_string(), city: None, state: None, country: None };
    let t = compose_title("D", &Some(addr_only), &Some(" Acme ".to_string()), &None);
    assert_eq!(t, "D, Somewhere,  Acme ");
    let t = compose_title("D", &None, &Some(" Acme ".to_string()), &Some(" X100\t".to_string()));
    assert_eq!(t, "D, Acme X100");
}

#[test]
fn chrono_backed_formatting() {
    assert_eq!(long_date(&at(2023, 12, 25)), "December 25, 2023");
    assert_eq!(stamp(&at(2023, 12, 25)), "2023-12-25T15:30:00+0000");
    assert_eq!(civil_date_time(2024, 2, 29, 0, 0, 0), Some(DateTime { year: 2024, month: 2, day: 29, hour: 0, minute: 0, second: 0 }));
    assert_eq!(civil_date_time(2023, 2, 29, 0, 0, 0), None);
    assert_eq!(civil_date_time(2023, 1, 1, 24, 0, 0), None);
    let n = now();
    assert!(n.month >= 1 && n.month <= 12);
}

#[test]
fn photo_page_lists_fields_and_metadata() {
    let mut p = photo("p1", "image/jpeg");
    p.exif_date_time = Some(at(2023, 12, 25));
    p.latitude = Some(41_878_100);
    p.longitude = Some(-87_629_800);
    p.f_number = Some(18);
    p.iso = Some(100);
    p.location = Some(chicago());
    let page = create_index_md(&p);
    assert!(page.starts_with("---\ntitle: December 25, 2023, Chicago\ndate: 2023-01-02T15:30:00+0000\nguid: p1\n"));
    assert!(page.contains("width: 800\nheight: 600\nmime_type: image/jpeg\n"));
    assert!(page.contains("exif_date: 2023-12-25T15:30:00+0000\n"));
    assert!(page.contains("original_latitude: 41.878100\noriginal_longitude: -87.629800\n"));
    assert!(page.contains("iso: 100\n"));
    assert!(page.contains("f_number: 1.8\n"));
    assert!(page.contains("location: Chicago, IL, USA\ncity: Chicago\nstate: Illinois\ncountry: United States\n"));
    assert!(page.ends_with("---\n\nCaption for p1"));
    assert!(!page.contains("camera_make"));
}

#[test]
fn extensions_follow_the_media_type() {
    assert_eq!(extension_for("image/png"), "png");
    assert_eq!(extension_for("video/mp4"), "mp4");
    assert_eq!(extension_for("image/x-unknown"), "jpg");
    assert_eq!(escape("say \"hi\""), "say \\\"hi\\\"");
}

#[test]
fn gallery_page_enumerates_members() {
    let mut index = PhotoIndex::new();
    index.add_or_update_photo(photo("photo1", "image/jpeg"));
    index.add_or_update_photo(photo("photo2", "video/mp4"));
    let mut g = Gallery::new(
        "g1".to_string(),
        "Test Gallery".to_string(),
        "test-gallery".to_string(),
        Some("Test gallery description".to_string()),
    );
    g.add_photo("photo1".to_string());
    g.add_photo("photo2".to_string());
    g.add_photo("ghost".to_string());
    index.add_or_update_gallery(g);
    let privacy = PrivacyConfig::default();
    let page = create_gallery_index(&index, "g1", &privacy, &at(2024, 3, 4)).unwrap();
    assert!(page.contains("title: Test Gallery"));
    assert!(page.contains("type: gallery"));
    assert!(page.contains("description: \"Test gallery description\""));
    assert!(page.contains("photo_count: 2"));
    assert!(page.contains("  - filename: photo1.jpg"));
    assert!(page.contains("  - filename: photo2.mp4"));
    assert!(page.contains("{{< figure"));
    assert!(page.contains("src=\"photo1.jpg\""));
    assert!(page.contains("{{< video src=\"photo2.mp4\""));
    assert!(page.contains("January"));
    assert!(!page.contains("ghost"));
    assert!(!page.contains("nofeed"));
    assert!(create_gallery_index(&index, "missing", &privacy, &at(2024, 3, 4)).is_none());
}

#[test]
fn gallery_page_emits_privacy_flags() {
    let mut index = PhotoIndex::new();
    index.add_or_update_gallery(Gallery::new("g".to_string(), "Privacy".to_string(), "p".to_string(), None));
    let privacy = PrivacyConfig { nofeed: true, noindex: true, uuid_slug: true, unlisted: true, robots_noindex: true };
    let page = create_gallery_index(&index, "g", &privacy, &at(2024, 3, 4)).unwrap();
    let uuid = index.get_gallery("g").unwrap().uuid.clone();
    assert!(page.contains("nofeed: true"));
    assert!(page.contains("noindex: true"));
    assert!(page.contains("unlisted: true"));
    assert!(page.contains("robots: noindex,nofollow"));
    assert!(page.contains(&format!("uuid: {}\n", uuid)));
    assert!(page.contains(&format!("slug: {}\n", uuid)));
    assert!(page.contains("photo_count: 0"));
}
