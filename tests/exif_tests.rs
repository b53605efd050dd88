use icloudalbum2hugo::exif::{
    extract_gps_coordinates, fuzz_coordinates, get_exif_rational_as_string, get_exif_string, get_exif_tenths,
    get_exif_u32, metadata_from_fields, parse_exif_datetime, parse_i32, parse_u32, split_char, ExifFields, ExifValue,
};
use icloudalbum2hugo::model::ExifMetadata;

#[test]
fn test_parse_exif_datetime() {
    let date_str = "2023:12:25 15:30:00";
    let result = parse_exif_datetime(date_str);
    assert!(result.is_some());

    if let Some(dt) = result {
        assert_eq!(dt.year, 2023);
        assert_eq!(dt.month, 12);
        assert_eq!(dt.day, 25);
        assert_eq!(dt.hour, 15);
        assert_eq!(dt.minute, 30);
        assert_eq!(dt.second, 0);
    }

    let invalid = "2023-12-25";
    let result = parse_exif_datetime(invalid);
    assert!(result.is_none());
}

#[test]
fn exif_datetime_edge_cases() {
    assert!(parse_exif_datetime("2023:02:29 00:00:00").is_none());
    assert!(parse_exif_datetime("2024:02:29 23:59:59").is_some());
    assert!(parse_exif_datetime("2023:12:25  15:30:00").is_none());
    assert!(parse_exif_datetime("2023:12:25 15:30").is_none());
    assert!(parse_exif_datetime("2023:1:5 1:2:3").is_some());
    assert_eq!(split_char("a::b", ':'), vec!["a".to_string(), String::new(), "b".to_string()]);
    assert_eq!(parse_u32("+42"), Some(42));
    assert_eq!(parse_u32("4294967296"), None);
    assert_eq!(parse_u32(""), None);
    assert_eq!(parse_i32("-2147483648"), Some(i32::MIN));
    assert_eq!(parse_i32("2147483648"), None);
}

#[test]
fn test_fuzz_coordinates() {
    let mut metadata = ExifMetadata {
        latitude: Some(37_774_900),
        longitude: Some(-122_419_400),
        ..Default::default()
    };

    fuzz_coordinates(&mut metadata);

    assert!(metadata.fuzzed_latitude.is_some());
    assert!(metadata.fuzzed_longitude.is_some());

    if let Some(orig_lat) = metadata.latitude {
        if let Some(fuzz_lat) = metadata.fuzzed_latitude {
            assert!((orig_lat - fuzz_lat).abs() <= 1000);
            assert!((orig_lat - fuzz_lat).abs() > 0);
        }
    }

    if let Some(orig_lon) = metadata.longitude {
        if let Some(fuzz_lon) = metadata.fuzzed_longitude {
            assert!((orig_lon - fuzz_lon).abs() <= 1000);
            assert!((orig_lon - fuzz_lon).abs() > 0);
        }
    }
}

#[test]
fn field_readers() {
    let ascii = ExifValue::Ascii(vec![b"Apple".to_vec(), b"x".to_vec()]);
    assert_eq!(get_exif_string(Some(&ascii)), Some("Apple".to_string()));
    let bad = ExifValue::Ascii(vec![vec![0x41, 0xff]]);
    assert_eq!(get_exif_string(Some(&bad)), Some("A\u{fffd}".to_string()));
    assert_eq!(get_exif_string(Some(&ExifValue::Short(vec![1]))), None);
    assert_eq!(get_exif_u32(Some(&ExifValue::Short(vec![200]))), Some(200));
    assert_eq!(get_exif_u32(Some(&ExifValue::Long(vec![]))), None);
    let r = |n: u32, d: u32| ExifValue::Rational(vec![(n, d)]);
    assert_eq!(get_exif_rational_as_string(Some(&r(30, 1))), Some("30".to_string()));
    assert_eq!(get_exif_rational_as_string(Some(&r(0, 5))), Some("0".to_string()));
    assert_eq!(get_exif_rational_as_string(Some(&r(2, 250))), Some("1/125".to_string()));
    assert_eq!(get_exif_rational_as_string(Some(&r(3, 8))), Some("3/8".to_string()));
    assert_eq!(get_exif_tenths(Some(&r(18, 10))), Some(18));
    assert_eq!(get_exif_tenths(Some(&r(1, 0))), None);
}

#[test]
fn gps_fields_become_signed_micro_degrees() {
    let lat = ExifValue::Rational(vec![(41, 1), (52, 1), (4116, 100)]);
    let lon = ExifValue::Rational(vec![(87, 1), (37, 1), (4728, 100)]);
    let n = ExifValue::Ascii(vec![b"N".to_vec()]);
    let w = ExifValue::Ascii(vec![b"W".to_vec()]);
    let (a, b) = extract_gps_coordinates(Some(&lat), Some(&n), Some(&lon), Some(&w)).unwrap();
    assert_eq!(a, 41_000_000 + 866_666 + 11_433);
    assert_eq!(b, -(87_000_000 + 616_666 + 13_133));
    assert!(extract_gps_coordinates(Some(&lat), None, Some(&lon), Some(&w)).is_none());
}

#[test]
fn metadata_from_all_fields() {
    let f = ExifFields {
        make: Some(ExifValue::Ascii(vec![b"Acme".to_vec()])),
        model: Some(ExifValue::Ascii(vec![b"X100".to_vec()])),
        date_time_original: Some(ExifValue::Ascii(vec![b"2023:12:25 15:30:00".to_vec()])),
        gps_latitude: Some(ExifValue::Rational(vec![(41, 1), (30, 1), (0, 1)])),
        gps_latitude_ref: Some(ExifValue::Ascii(vec![b"N".to_vec()])),
        gps_longitude: Some(ExifValue::Rational(vec![(87, 1), (45, 1), (0, 1)])),
        gps_longitude_ref: Some(ExifValue::Ascii(vec![b"W".to_vec()])),
        iso_speed: Some(ExifValue::Short(vec![100])),
        exposure_time: Some(ExifValue::Rational(vec![(1, 60)])),
        f_number: Some(ExifValue::Rational(vec![(28, 10)])),
        focal_length: Some(ExifValue::Rational(vec![(42, 10)])),
    };
    let m = metadata_from_fields(&f);
    assert_eq!(m.camera_make, Some("Acme".to_string()));
    assert_eq!(m.date_time.unwrap().day, 25);
    assert_eq!(m.latitude, Some(41_500_000));
    assert_eq!(m.longitude, Some(-87_750_000));
    assert!(m.fuzzed_latitude.is_some());
    assert_eq!(m.iso, Some(100));
    assert_eq!(m.exposure_time, Some("1/60".to_string()));
    assert_eq!(m.f_number, Some(28));
    assert_eq!(m.focal_length, Some(42));
    let empty = metadata_from_fields(&ExifFields::default());
    assert!(empty.camera_make.is_none() && empty.latitude.is_none() && empty.fuzzed_latitude.is_none());
}
