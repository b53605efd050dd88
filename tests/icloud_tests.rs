use icloudalbum2hugo::icloud::{default_mime_type, determine_mime_type, determine_url_format, ICloudError, ICloudUrlFormat};

#[test]
fn url_formats() {
    assert_eq!(determine_url_format("https://www.icloud.com/sharedalbum/#B0abCdEfGhIj"), ICloudUrlFormat::Standard);
    assert_eq!(determine_url_format("https://www.icloud.com/sharedalbum/#B0123?x=1"), ICloudUrlFormat::WebWithParams);
    assert_eq!(determine_url_format("https://share.icloud.com/photos/abc0def"), ICloudUrlFormat::Invitation);
    assert_eq!(determine_url_format("https://www.example.com"), ICloudUrlFormat::Unknown);
}

#[test]
fn mime_types() {
    assert_eq!(determine_mime_type("https://x/a.png", "thumb"), "image/png");
    assert_eq!(determine_mime_type("https://x/a", "original_heic"), "image/heic");
    assert_eq!(determine_mime_type("https://x/a.mov", "k"), "video/mp4");
    assert_eq!(determine_mime_type("https://x/a", "k"), "image/jpeg");
    assert_eq!(default_mime_type(), "image/jpeg");
}

#[test]
fn error_context_and_messages() {
    let e = ICloudError::with_context("boom".to_string(), "Fetching".to_string());
    assert_eq!(e.to_string(), "Fetching: boom");
    let r: Result<u8, ICloudError> = ICloudError::context(Err("bad".to_string()), "Parsing".to_string());
    assert_eq!(r.unwrap_err().to_string(), "Parsing: bad");
    let ok: Result<u8, ICloudError> = ICloudError::context(Ok(3), "Parsing".to_string());
    assert_eq!(ok.unwrap(), 3);
    assert_eq!(ICloudError::InvalidUrl("x".to_string()).to_string(), "Invalid iCloud URL: x");
}

use icloudalbum2hugo::album::Album;
use icloudalbum2hugo::datetime::DateTime;
use icloudalbum2hugo::icloud::{
    album_from_images, album_name, album_source, convert_image, extract_token, find_best_derivative,
    generate_photo_checksum, parse_photo_date, process_photo, token_from_fragment, token_from_segments, AlbumSource,
    RemoteDerivative, RemoteImage,
};
use icloudalbum2hugo::mock::{create_mock_album, mock_fetch_album};

fn deriv(key: &str, url: Option<&str>, w: u32, h: u32) -> RemoteDerivative {
    RemoteDerivative { key: key.to_string(), url: url.map(|u| u.to_string()), width: Some(w), height: Some(h) }
}

fn image(guid: &str, derivatives: Vec<RemoteDerivative>, date: Option<&str>) -> RemoteImage {
    RemoteImage { photo_guid: guid.to_string(), derivatives, caption: Some("c".to_string()), date_created: date.map(|d| d.to_string()) }
}

fn noon() -> DateTime {
    DateTime { year: 2024, month: 1, day: 1, hour: 12, minute: 0, second: 0 }
}

#[test]
fn derivative_choice_prefers_original_then_largest() {
    let img = image("g", vec![deriv("small", Some("https://x/s.jpg"), 10, 10), deriv("original", Some("https://x/o.png"), 5, 5)], None);
    let (url, w, h, mime) = find_best_derivative(&img).unwrap();
    assert_eq!((url.as_str(), w, h, mime.as_str()), ("https://x/o.png", 5, 5, "image/png"));
    let img = image("g", vec![deriv("a", Some("https://x/a"), 10, 10), deriv("b", Some("https://x/b"), 20, 10), deriv("c", None, 90, 90), deriv("d", Some("https://x/d"), 10, 20)], None);
    assert_eq!(find_best_derivative(&img).unwrap().0, "https://x/b");
    let none = image("g9", vec![deriv("a", None, 1, 1)], None);
    match find_best_derivative(&none) {
        Err(ICloudError::NoDerivativesError(m)) => assert_eq!(m, "No derivatives with URL found for photo g9"),
        _ => panic!("expected a missing-derivative error"),
    }
}

#[test]
fn checksums_and_dates() {
    let c = generate_photo_checksum("guid", "https://x/y.jpg");
    assert_eq!(c.len(), 32);
    assert_eq!(c, format!("{:x}", md5::compute("guid:https://x/y.jpg")));
    assert_ne!(c, generate_photo_checksum("guid2", "https://x/y.jpg"));
    let d = parse_photo_date("2023-01-01T12:00:00Z").unwrap();
    assert_eq!((d.year, d.month, d.day, d.hour), (2023, 1, 1, 12));
    let shifted = parse_photo_date("2023-01-01T01:00:00+02:00").unwrap();
    assert_eq!((shifted.year, shifted.month, shifted.day, shifted.hour), (2022, 12, 31, 23));
    assert!(matches!(parse_photo_date("yesterday"), Err(ICloudError::PhotoProcessingError(_))));
}

#[test]
fn image_records_become_photos() {
    let img = image("g1", vec![deriv("original", Some("https://x/o.heic"), 4, 3)], Some("2023-05-06T07:08:09Z"));
    let p = convert_image(&img, noon()).unwrap();
    assert_eq!(p.filename, "g1.heic");
    assert_eq!(p.mime_type, "image/heic");
    assert_eq!(p.created_at.year, 2023);
    let undated = convert_image(&image("g2", vec![deriv("original", Some("https://x/o.jpg"), 4, 3)], None), noon()).unwrap();
    assert_eq!(undated.created_at, noon());
    let mut album = Album::new("A".to_string());
    assert!(process_photo(&mut album, &img, noon()).is_ok());
    assert!(process_photo(&mut album, &image("bad", vec![], None), noon()).is_err());
    assert_eq!(album.photo_count(), 1);
}

#[test]
fn albums_from_service_responses() {
    let good = image("g1", vec![deriv("original", Some("https://x/o.jpg"), 4, 3)], None);
    let bad = image("g2", vec![], None);
    let a = album_from_images("  ", "B0123456789", &vec![good.clone(), bad.clone()], noon()).unwrap();
    assert_eq!(a.name, "iCloud Album B0123456");
    assert_eq!(a.photo_count(), 1);
    assert!(matches!(album_from_images("Trip", "B0", &vec![bad], noon()), Err(ICloudError::PhotoProcessingError(_))));
    assert_eq!(album_from_images("Trip", "B0", &vec![], noon()).unwrap().name, "Trip");
    assert_eq!(album_name("Trip", "B1"), "Trip");
}

#[test]
fn tokens_from_urls() {
    assert_eq!(extract_token("https://www.icloud.com/sharedalbum/#B0abCdEfGhIj").unwrap(), "B0abCdEfGhIj");
    assert_eq!(extract_token("https://www.icloud.com/sharedalbum/#B0123456789?param=value").unwrap(), "B0123456789");
    assert_eq!(extract_token("https://share.icloud.com/photos/abc0defGHIjklMNO").unwrap(), "abc0defGHIjklMNO");
    assert!(matches!(extract_token("https://www.example.com"), Err(ICloudError::InvalidUrl(_))));
    assert!(extract_token("https://www.icloud.com/sharedalbum/#").is_err());
    assert!(matches!(token_from_fragment(Some("xyz")), Err(ICloudError::InvalidToken(_))));
    assert!(matches!(token_from_segments(None), Err(ICloudError::InvalidUrl(_))));
    assert_eq!(token_from_segments(Some(vec!["photos".to_string(), "T".to_string()])).unwrap(), "T");
}

#[test]
fn album_sources() {
    assert!(matches!(album_source("https://www.icloud.com/sharedalbum/#test"), Ok(AlbumSource::Mock)));
    assert!(matches!(album_source("https://www.example.com"), Err(ICloudError::InvalidUrl(_))));
    assert!(matches!(album_source("https://icloud.com/sharedalbum/not-a-token"), Err(ICloudError::InvalidToken(_))));
    assert!(matches!(album_source("https://www.icloud.com/sharedalbum/#B2T5VaUrzMLxwU"), Ok(AlbumSource::Remote(t)) if t == "B2T5VaUrzMLxwU"));
}

#[test]
fn the_sample_album() {
    let a = create_mock_album();
    assert_eq!(a.name, "Mock Test Album");
    assert_eq!(a.photo_count(), 3);
    assert_eq!(a.photos[2].filename, "photo_with_no_caption.jpg");
    assert!(mock_fetch_album("https://custom/album").is_ok());
    assert_eq!(mock_fetch_album("https://www.icloud.com/x").unwrap_err(), "Only test URLs are supported in mock mode");
}
