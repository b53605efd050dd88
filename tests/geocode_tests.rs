use icloudalbum2hugo::geocode::{create_geocoding_service, MockGeocodingService};
use icloudalbum2hugo::model::Location;

#[test]
fn test_mock_geocoding_chicago() {
    let service = MockGeocodingService;
    let result = service.reverse_geocode(41_878_100, -87_629_800).unwrap();

    assert_eq!(result.formatted_address, "Chicago, IL, USA");
    assert_eq!(result.city, Some("Chicago".to_string()));
    assert_eq!(result.state, Some("Illinois".to_string()));
    assert_eq!(result.country, Some("United States".to_string()));
}

#[test]
fn test_mock_geocoding_unknown_location() {
    let service = MockGeocodingService;
    let result = service.reverse_geocode(0, 0).unwrap();

    assert_eq!(result.formatted_address, "North East at 0.0000, 0.0000");
    assert_eq!(result.city, None);
    assert_eq!(result.state, None);
    assert_eq!(result.country, None);
}

#[test]
fn test_location_display() {
    let location = Location {
        formatted_address: "Test City, Test State, Test Country".to_string(),
        city: Some("Test City".to_string()),
        state: Some("Test State".to_string()),
        country: Some("Test Country".to_string()),
    };

    assert_eq!(location.to_string(), "Test City, Test State, Test Country");
}

#[test]
fn geocoding_other_known_areas() {
    let s = create_geocoding_service();
    assert_eq!(s.reverse_geocode(40_712_800, -74_006_000).unwrap().formatted_address, "New York, NY, USA");
    assert_eq!(s.reverse_geocode(37_774_900, -122_419_400).unwrap().formatted_address, "San Francisco, CA, USA");
    assert_eq!(s.reverse_geocode(51_507_400, -127_800).unwrap().formatted_address, "London, England, UK");
}

#[test]
fn geocoding_quadrant_rounds_to_four_places() {
    let s = MockGeocodingService;
    let r = s.reverse_geocode(-33_868_850, 151_209_300).unwrap();
    assert_eq!(r.formatted_address, "South East at -33.8689, 151.2093");
    let r = s.reverse_geocode(10_000_049, -20_500_000).unwrap();
    assert_eq!(r.formatted_address, "North West at 10.0000, -20.5000");
}
