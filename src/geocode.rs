//! Reverse geocoding: turning a coordinate pair into a place. The built-in
//! service knows a few metropolitan areas and names every other point by
//! its quadrant. Coordinates are in millionths of a degree.

use vstd::prelude::*;
use crate::model::Location;
use crate::text::{decimal, digit_char, push_decimal};

verus! {

pub open spec fn opt_view(o: Option<String>) -> Option<Seq<char>> {
    match o {
        Some(s) => Some(s@),
        None => None,
    }
}

/// The location reads as the given texts.
pub open spec fn reads_as(
    l: Location,
    address: Seq<char>,
    city: Option<Seq<char>>,
    state: Option<Seq<char>>,
    country: Option<Seq<char>>,
) -> bool {
    &&& l.formatted_address@ == address
    &&& opt_view(l.city) == city
    &&& opt_view(l.state) == state
    &&& opt_view(l.country) == country
}

/// Strictly inside the box, bounds in millionths of a degree.
pub open spec fn within(lat: int, lon: int, lat_lo: int, lat_hi: int, lon_lo: int, lon_hi: int) -> bool {
    lat_lo < lat < lat_hi && lon_lo < lon < lon_hi
}

pub open spec fn in_chicago(lat: int, lon: int) -> bool {
    within(lat, lon, 41_500_000, 42_000_000, -88_000_000, -87_500_000)
}

pub open spec fn in_new_york(lat: int, lon: int) -> bool {
    within(lat, lon, 40_500_000, 41_000_000, -74_500_000, -73_500_000)
}

pub open spec fn in_san_francisco(lat: int, lon: int) -> bool {
    within(lat, lon, 37_500_000, 38_000_000, -123_000_000, -122_000_000)
}

pub open spec fn in_london(lat: int, lon: int) -> bool {
    within(lat, lon, 51_000_000, 52_000_000, -500_000, 500_000)
}

/// Four digits, zero-padded, of `n < 10000`.
pub open spec fn four_digits(n: nat) -> Seq<char> {
    seq![
        digit_char(n / 1000),
        digit_char((n / 100) % 10),
        digit_char((n / 10) % 10),
        digit_char(n % 10),
    ]
}

/// A coordinate in degrees with four decimals, rounded half away from
/// zero, with a minus sign for any negative input.
pub open spec fn degrees4(v: int) -> Seq<char> {
    let a: nat = if v < 0 { (-v) as nat } else { v as nat };
    let q: nat = (a + 50) / 100;
    (if v < 0 { seq!['-'] } else { Seq::empty() }) + decimal(q / 10000) + seq!['.'] + four_digits(q % 10000)
}

/// The place text for a point outside the known areas.
pub open spec fn quadrant_text(lat: int, lon: int) -> Seq<char> {
    (if lat >= 0 { "North"@ } else { "South"@ }) + " "@ + (if lon >= 0 { "East"@ } else { "West"@ }) + " at "@
        + degrees4(lat) + ", "@ + degrees4(lon)
}

/// What the built-in service resolves a point to.
pub open spec fn mock_place(l: Location, lat: int, lon: int) -> bool {
    if in_chicago(lat, lon) {
        reads_as(l, "Chicago, IL, USA"@, Some("Chicago"@), Some("Illinois"@), Some("United States"@))
    } else if in_new_york(lat, lon) {
        reads_as(l, "New York, NY, USA"@, Some("New York"@), Some("New York"@), Some("United States"@))
    } else if in_san_francisco(lat, lon) {
        reads_as(
            l,
            "San Francisco, CA, USA"@,
            Some("San Francisco"@),
            Some("California"@),
            Some("United States"@),
        )
    } else if in_london(lat, lon) {
        reads_as(
            l,
            "London, England, UK"@,
            Some("London"@),
            Some("England"@),
            Some("United Kingdom"@),
        )
    } else {
        reads_as(l, quadrant_text(lat, lon), None, None, None)
    }
}

fn push_four_digits(s: &mut String, n: u64)
    requires
        n < 10000,
    ensures
        final(s)@ == old(s)@ + four_digits(n as nat),
{
    push_decimal(s, n / 1000);
    push_decimal(s, (n / 100) % 10);
    push_decimal(s, (n / 10) % 10);
    push_decimal(s, n % 10);
    assert(decimal((n / 1000) as nat) == seq![digit_char((n / 1000) as nat)]);
    assert(decimal(((n / 100) % 10) as nat) == seq![digit_char(((n / 100) % 10) as nat)]);
    assert(decimal(((n / 10) % 10) as nat) == seq![digit_char(((n / 10) % 10) as nat)]);
    assert(decimal((n % 10) as nat) == seq![digit_char((n % 10) as nat)]);
    assert(final(s)@ =~= old(s)@ + four_digits(n as nat));
}

/// Appends a coordinate in degrees with four decimals.
pub fn push_degrees4(s: &mut String, v: i64)
    ensures
        final(s)@ == old(s)@ + degrees4(v as int),
{
    proof {
        reveal_strlit("-");
        reveal_strlit(".");
    }
    let a: u64 = if v < 0 { (0 - (v as i128)) as u64 } else { v as u64 };
    let q: u64 = ((a as u128 + 50) / 100) as u64;
    let ghost s0 = s@;
    if v < 0 {
        s.append("-");
    }
    let ghost s1 = s@;
    push_decimal(s, q / 10000);
    s.append(".");
    push_four_digits(s, q % 10000);
    assert(s1 == s0 + (if v < 0 { seq!['-'] } else { Seq::<char>::empty() }));
    assert(s@ =~= s0 + degrees4(v as int));
}

fn some_text(t: &str) -> (r: Option<String>)
    ensures
        opt_view(r) == Some(t@),
{
    Some(t.to_owned())
}

fn place(address: &str, city: &str, state: &str, country: &str) -> (r: Location)
    ensures
        reads_as(r, address@, Some(city@), Some(state@), Some(country@)),
{
    Location {
        formatted_address: address.to_owned(),
        city: some_text(city),
        state: some_text(state),
        country: some_text(country),
    }
}

/// The built-in geocoding service.
pub struct MockGeocodingService;

impl MockGeocodingService {
    /// Resolves a point to one of the known areas, or to its quadrant.
    pub fn reverse_geocode(&self, latitude: i64, longitude: i64) -> (r: Result<Location, String>)
        ensures
            r matches Ok(l) && mock_place(l, latitude as int, longitude as int),
    {
        let (lat, lon) = (latitude, longitude);
        if lat > 41_500_000 && lat < 42_000_000 && lon > -88_000_000 && lon < -87_500_000 {
            return Ok(place("Chicago, IL, USA", "Chicago", "Illinois", "United States"));
        }
        if lat > 40_500_000 && lat < 41_000_000 && lon > -74_500_000 && lon < -73_500_000 {
            return Ok(place("New York, NY, USA", "New York", "New York", "United States"));
        }
        if lat > 37_500_000 && lat < 38_000_000 && lon > -123_000_000 && lon < -122_000_000 {
            return Ok(place("San Francisco, CA, USA", "San Francisco", "California", "United States"));
        }
        if lat > 51_000_000 && lat < 52_000_000 && lon > -500_000 && lon < 500_000 {
            return Ok(place("London, England, UK", "London", "England", "United Kingdom"));
        }
        let mut text = String::new();
        text.append(if lat >= 0 { "North" } else { "South" });
        text.append(" ");
        text.append(if lon >= 0 { "East" } else { "West" });
        text.append(" at ");
        push_degrees4(&mut text, lat);
        text.append(", ");
        push_degrees4(&mut text, lon);
        assert(text@ =~= quadrant_text(lat as int, lon as int));
        Ok(Location { formatted_address: text, city: None, state: None, country: None })
    }
}

/// The geocoding service in use.
pub fn create_geocoding_service() -> (r: MockGeocodingService) {
    MockGeocodingService
}

} // verus!
