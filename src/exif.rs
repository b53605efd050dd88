//! Reading photo metadata from EXIF field values. The values arrive as
//! plain data; this module decides what each field means.

use vstd::prelude::*;
use rand::Rng;
use crate::datetime::{DateTime, civil_date_time, valid_civil};
use crate::model::{ExifMetadata, views};
use crate::text::{decimal, push_decimal};

verus! {

/// The value of an EXIF field, in the shapes the metadata reader uses.
#[derive(Clone, Debug)]
pub enum ExifValue {
    Ascii(Vec<Vec<u8>>),
    Short(Vec<u16>),
    Long(Vec<u32>),
    /// Numerator and denominator pairs.
    Rational(Vec<(u32, u32)>),
    Other,
}

/// What a byte string reads as when invalid UTF-8 is replaced.
pub uninterp spec fn lossy_text(b: Seq<u8>) -> Seq<char>;

/// Relies on `String::from_utf8_lossy`: the text depends on the bytes alone.
#[verifier::external_body]
fn text_of_bytes(b: &Vec<u8>) -> (r: String)
    ensures
        r@ == lossy_text(b@),
{
    String::from_utf8_lossy(b).to_string()
}

/// The text of an ASCII field: its first string.
pub fn get_exif_string(v: Option<&ExifValue>) -> (r: Option<String>)
    ensures
        opt_text(r) == text_field(deref_opt(v)),
{
    match v {
        Some(ExifValue::Ascii(parts)) => {
            if parts.len() > 0 {
                Some(text_of_bytes(&parts[0]))
            } else {
                None
            }
        },
        _ => None,
    }
}

/// The number of a short or long field: its first value.
pub fn get_exif_u32(v: Option<&ExifValue>) -> (r: Option<u32>)
    ensures
        match v {
            Some(ExifValue::Short(xs)) if xs@.len() > 0 => r == Some(xs@[0] as u32),
            Some(ExifValue::Long(xs)) if xs@.len() > 0 => r == Some(xs@[0]),
            _ => r is None,
        },
{
    match v {
        Some(ExifValue::Short(xs)) => if xs.len() > 0 {
            Some(xs[0] as u32)
        } else {
            None
        },
        Some(ExifValue::Long(xs)) => if xs.len() > 0 {
            Some(xs[0])
        } else {
            None
        },
        _ => None,
    }
}

/// A rational as an exposure text: `n` over a denominator of one, `0` for
/// a zero numerator, `1/k` when the numerator divides the denominator,
/// `n/d` otherwise.
pub open spec fn rational_text(num: u32, den: u32) -> Seq<char> {
    if den == 1 {
        decimal(num as nat)
    } else if num == 0 {
        "0"@
    } else if den % num == 0 {
        "1/"@ + decimal((den / num) as nat)
    } else {
        decimal(num as nat) + "/"@ + decimal(den as nat)
    }
}

/// The exposure text of a rational field's first value.
pub fn get_exif_rational_as_string(v: Option<&ExifValue>) -> (r: Option<String>)
    ensures
        match v {
            Some(ExifValue::Rational(xs)) if xs@.len() > 0 => r matches Some(t) && t@ == rational_text(
                xs@[0].0,
                xs@[0].1,
            ),
            _ => r is None,
        },
{
    match v {
        Some(ExifValue::Rational(xs)) => {
            if xs.len() == 0 {
                return None;
            }
            let (num, den) = xs[0];
            let mut s = String::new();
            if den == 1 {
                push_decimal(&mut s, num as u64);
            } else if num == 0 {
                s.append("0");
            } else if den % num == 0 {
                s.append("1/");
                push_decimal(&mut s, (den / num) as u64);
            } else {
                push_decimal(&mut s, num as u64);
                s.append("/");
                push_decimal(&mut s, den as u64);
            }
            assert(s@ =~= rational_text(num, den));
            Some(s)
        },
        _ => None,
    }
}

/// A rational in tenths, rounded half up; none for a zero denominator or
/// a value beyond `u32`.
pub open spec fn tenths_of(num: u32, den: u32) -> Option<u32> {
    if den == 0 {
        None
    } else {
        let t = (num as int * 10 + den as int / 2) / den as int;
        if t > 0xffff_ffff {
            None
        } else {
            Some(t as u32)
        }
    }
}

/// The first value of a rational field in tenths (an aperture or a focal
/// length).
pub fn get_exif_tenths(v: Option<&ExifValue>) -> (r: Option<u32>)
    ensures
        match v {
            Some(ExifValue::Rational(xs)) if xs@.len() > 0 => r == tenths_of(xs@[0].0, xs@[0].1),
            _ => r is None,
        },
{
    match v {
        Some(ExifValue::Rational(xs)) => {
            if xs.len() == 0 {
                return None;
            }
            let (num, den) = xs[0];
            if den == 0 {
                return None;
            }
            let t: u64 = (num as u64 * 10 + den as u64 / 2) / den as u64;
            if t > 0xffff_ffff {
                None
            } else {
                Some(t as u32)
            }
        },
        _ => None,
    }
}

/// One degrees-minutes-seconds component in millionths of a degree,
/// rounded down; a zero denominator counts as zero.
pub open spec fn component(num: u32, den: u32, per_degree: int) -> int {
    if den == 0 {
        0
    } else {
        (num as int * 1_000_000) / (den as int * per_degree)
    }
}

/// A degrees, minutes, seconds value in millionths of a degree; zero when
/// the field does not hold three rationals.
pub open spec fn deref_opt(o: Option<&ExifValue>) -> Option<ExifValue> {
    match o {
        Some(v) => Some(*v),
        None => None,
    }
}

pub open spec fn dms_micro(v: Option<ExifValue>) -> int {
    match v {
        Some(ExifValue::Rational(xs)) if xs@.len() >= 3 => component(xs@[0].0, xs@[0].1, 1) + component(
            xs@[1].0,
            xs@[1].1,
            60,
        ) + component(xs@[2].0, xs@[2].1, 3600),
        _ => 0,
    }
}

fn component_micro(num: u32, den: u32, per_degree: u64) -> (r: i64)
    requires
        1 <= per_degree <= 3600,
    ensures
        r == component(num, den, per_degree as int),
        0 <= r <= 4_294_967_295_000_000,
{
    if den == 0 {
        return 0;
    }
    let n: u64 = num as u64 * 1_000_000;
    assert((den as u64) * per_degree <= 0xffff_ffff * 3600 && (den as u64) * per_degree >= 1) by (nonlinear_arith)
        requires
            1 <= den <= 0xffff_ffff,
            1 <= per_degree <= 3600,
    ;
    let d: u64 = den as u64 * per_degree;
    let q: u64 = n / d;
    assert(q <= n) by (nonlinear_arith)
        requires
            q == n / d,
            d >= 1,
    ;
    q as i64
}

fn dms_value(v: Option<&ExifValue>) -> (r: i64)
    ensures
        r == dms_micro(deref_opt(v)),
        0 <= r <= 3 * 4_294_967_295_000_000,
{
    match v {
        Some(ExifValue::Rational(xs)) => {
            if xs.len() >= 3 {
                let a = component_micro(xs[0].0, xs[0].1, 1);
                let b = component_micro(xs[1].0, xs[1].1, 60);
                let c = component_micro(xs[2].0, xs[2].1, 3600);
                a + b + c
            } else {
                0
            }
        },
        _ => 0,
    }
}

/// A coordinate pair read from the GPS fields: present when both
/// reference texts are non-empty; south and west are negative.
pub open spec fn gps_of(
    lat: Option<ExifValue>,
    lat_ref: Option<Seq<char>>,
    lon: Option<ExifValue>,
    lon_ref: Option<Seq<char>>,
) -> Option<(i64, i64)> {
    match (lat_ref, lon_ref) {
        (Some(a), Some(b)) => if a.len() > 0 && b.len() > 0 {
            Some(
                (
                    (if a == "S"@ || a == "W"@ { -dms_micro(lat) } else { dms_micro(lat) }) as i64,
                    (if b == "S"@ || b == "W"@ { -dms_micro(lon) } else { dms_micro(lon) }) as i64,
                ),
            )
        } else {
            None
        },
        _ => None,
    }
}

fn signed(value: i64, reference: &str) -> (r: i64)
    requires
        0 <= value <= 3 * 4_294_967_295_000_000,
    ensures
        r as int == (if reference@ == "S"@ || reference@ == "W"@ { -(value as int) } else { value as int }),
{
    if crate::text::str_eq(reference, "S") || crate::text::str_eq(reference, "W") {
        -value
    } else {
        value
    }
}

/// Reads the coordinates of the GPS fields, in millionths of a degree.
pub fn extract_gps_coordinates(
    lat: Option<&ExifValue>,
    lat_ref: Option<&ExifValue>,
    lon: Option<&ExifValue>,
    lon_ref: Option<&ExifValue>,
) -> (r: Option<(i64, i64)>)
    ensures
        r == gps_of(deref_opt(lat), text_field(deref_opt(lat_ref)), deref_opt(lon), text_field(deref_opt(lon_ref))),
        r matches Some(p) ==> -13_000_000_000_000_000 <= p.0 <= 13_000_000_000_000_000 && -13_000_000_000_000_000
            <= p.1 <= 13_000_000_000_000_000,
{
    let a = get_exif_string(lat_ref);
    let b = get_exif_string(lon_ref);
    match (a, b) {
        (Some(a), Some(b)) => {
            if a.unicode_len() > 0 && b.unicode_len() > 0 {
                let la = signed(dms_value(lat), a.as_str());
                let lo = signed(dms_value(lon), b.as_str());
                Some((la, lo))
            } else {
                None
            }
        },
        _ => None,
    }
}

/// Relies on rand's `thread_rng().gen_range(0..1998)`: a number in that
/// range.
#[verifier::external_body]
fn random_below_1998() -> (r: i64)
    ensures
        0 <= r < 1998,
{
    rand::thread_rng().gen_range(0..1998)
}

/// A random non-zero offset of under a thousandth of a degree, in
/// millionths.
fn random_offset() -> (r: i64)
    ensures
        -1000 < r < 1000,
        r != 0,
{
    let k = random_below_1998();
    if k < 999 {
        k - 999
    } else {
        k - 998
    }
}

/// Sets the privacy-fuzzed coordinates: each known coordinate moved by a
/// random offset of under a thousandth of a degree.
pub fn fuzz_coordinates(metadata: &mut ExifMetadata)
    requires
        old(metadata).latitude matches Some(v) ==> -9_000_000_000_000_000_000 <= v <= 9_000_000_000_000_000_000,
        old(metadata).longitude matches Some(v) ==> -9_000_000_000_000_000_000 <= v <= 9_000_000_000_000_000_000,
    ensures
        final(metadata).latitude == old(metadata).latitude,
        final(metadata).longitude == old(metadata).longitude,
        final(metadata).camera_make == old(metadata).camera_make,
        final(metadata).camera_model == old(metadata).camera_model,
        final(metadata).date_time == old(metadata).date_time,
        final(metadata).iso == old(metadata).iso,
        final(metadata).exposure_time == old(metadata).exposure_time,
        final(metadata).f_number == old(metadata).f_number,
        final(metadata).focal_length == old(metadata).focal_length,
        match old(metadata).latitude {
            Some(v) => final(metadata).fuzzed_latitude matches Some(f) && v - 1000 < f < v + 1000 && f != v,
            None => final(metadata).fuzzed_latitude == old(metadata).fuzzed_latitude,
        },
        match old(metadata).longitude {
            Some(v) => final(metadata).fuzzed_longitude matches Some(f) && v - 1000 < f < v + 1000 && f != v,
            None => final(metadata).fuzzed_longitude == old(metadata).fuzzed_longitude,
        },
{
    match metadata.latitude {
        Some(v) => {
            let o = random_offset();
            metadata.fuzzed_latitude = Some(v + o);
        },
        None => {},
    }
    match metadata.longitude {
        Some(v) => {
            let o = random_offset();
            metadata.fuzzed_longitude = Some(v + o);
        },
        None => {},
    }
}

/// The pieces of a text between separators (one piece for a text without
/// any).
pub open spec fn split_on(s: Seq<char>, sep: char) -> Seq<Seq<char>>
    decreases s.len(),
{
    if s.len() == 0 {
        seq![Seq::empty()]
    } else {
        let r = split_on(s.drop_last(), sep);
        if s.last() == sep {
            r.push(Seq::empty())
        } else {
            r.update(r.len() - 1, r.last().push(s.last()))
        }
    }
}

proof fn lemma_split_nonempty(s: Seq<char>, sep: char)
    ensures
        split_on(s, sep).len() >= 1,
    decreases s.len(),
{
    if s.len() > 0 {
        lemma_split_nonempty(s.drop_last(), sep);
    }
}

/// Splits a text at each separator.
pub fn split_char(s: &str, sep: char) -> (r: Vec<String>)
    ensures
        views(r@) == split_on(s@, sep),
{
    let n = s.unicode_len();
    let mut parts: Vec<String> = Vec::new();
    parts.push(String::new());
    let mut i: usize = 0;
    assert(views(parts@) =~= split_on(s@.subrange(0, 0), sep));
    while i < n
        invariant
            n == s@.len(),
            i <= n,
            views(parts@) == split_on(s@.subrange(0, i as int), sep),
            parts@.len() >= 1,
        decreases n - i,
    {
        let ghost sub = s@.subrange(0, i + 1);
        assert(sub.drop_last() =~= s@.subrange(0, i as int));
        assert(sub.last() == s@[i as int]);
        let c = s.get_char(i);
        let ghost before = views(parts@);
        if c == sep {
            parts.push(String::new());
            assert(views(parts@) =~= before.push(Seq::empty()));
        } else {
            let ghost old_parts = parts@;
            let mut last = parts.pop().unwrap();
            assert(last == old_parts[old_parts.len() - 1]);
            assert(before.last() == last@);
            let piece = s.substring_char(i, i + 1);
            assert(piece@ =~= seq![c]);
            last.append(piece);
            assert(last@ =~= before.last().push(c));
            parts.push(last);
            assert(parts@ == old_parts.update(old_parts.len() - 1, last));
            assert(views(parts@) =~= before.update(before.len() - 1, before.last().push(c)));
        }
        proof {
            lemma_split_nonempty(sub, sep);
        }
        i = i + 1;
    }
    assert(s@.subrange(0, n as int) =~= s@);
    parts
}

pub open spec fn is_digit(c: char) -> bool {
    '0' <= c && c <= '9'
}

pub open spec fn all_digits(s: Seq<char>) -> bool {
    forall|i: int| 0 <= i < s.len() ==> is_digit(#[trigger] s[i])
}

pub open spec fn digits_value(s: Seq<char>) -> nat
    decreases s.len(),
{
    if s.len() == 0 {
        0
    } else {
        digits_value(s.drop_last()) * 10 + (s.last() as nat - '0' as nat) as nat
    }
}

/// The digits after an optional sign character `sign`.
pub open spec fn unsigned_part(s: Seq<char>, sign: char) -> Seq<char> {
    if s.len() > 0 && s[0] == sign {
        s.drop_first()
    } else {
        s
    }
}

/// What `str::parse::<u32>` yields: an optional `+`, then at least one
/// digit, for a value that fits.
pub open spec fn parse_u32_spec(s: Seq<char>) -> Option<u32> {
    let b = unsigned_part(s, '+');
    if b.len() > 0 && all_digits(b) && digits_value(b) <= 0xffff_ffff {
        Some(digits_value(b) as u32)
    } else {
        None
    }
}

/// What `str::parse::<i32>` yields: an optional sign, then at least one
/// digit, for a value that fits.
pub open spec fn parse_i32_spec(s: Seq<char>) -> Option<i32> {
    if s.len() > 0 && s[0] == '-' {
        let b = s.drop_first();
        if b.len() > 0 && all_digits(b) && digits_value(b) <= 0x8000_0000 {
            Some((-(digits_value(b) as int)) as i32)
        } else {
            None
        }
    } else {
        let b = unsigned_part(s, '+');
        if b.len() > 0 && all_digits(b) && digits_value(b) <= 0x7fff_ffff {
            Some(digits_value(b) as i32)
        } else {
            None
        }
    }
}

proof fn lemma_digits_grow(s: Seq<char>, i: int)
    requires
        0 <= i <= s.len(),
        all_digits(s),
    ensures
        digits_value(s.subrange(0, i)) <= digits_value(s),
    decreases s.len() - i,
{
    if i < s.len() {
        lemma_digits_grow(s, i + 1);
        let t = s.subrange(0, i + 1);
        assert(t.drop_last() =~= s.subrange(0, i));
        assert(is_digit(s[i]));
    } else {
        assert(s.subrange(0, i) =~= s);
    }
}

/// The value of a run of digits from position `start`, when it is at
/// most `limit`.
fn digits_upto(s: &str, start: usize, limit: u64) -> (r: Option<u64>)
    requires
        start <= s@.len(),
        limit <= 0xffff_ffff,
    ensures
        ({
            let b = s@.subrange(start as int, s@.len() as int);
            r == (if b.len() > 0 && all_digits(b) && digits_value(b) <= limit {
                Some(digits_value(b) as u64)
            } else {
                None::<u64>
            })
        }),
{
    let n = s.unicode_len();
    let ghost b = s@.subrange(start as int, n as int);
    if start == n {
        return None;
    }
    let mut v: u64 = 0;
    let mut i: usize = start;
    while i < n
        invariant
            n == s@.len(),
            start <= i <= n,
            limit <= 0xffff_ffff,
            b == s@.subrange(start as int, n as int),
            all_digits(s@.subrange(start as int, i as int)),
            v as nat == digits_value(s@.subrange(start as int, i as int)),
            v <= limit,
        decreases n - i,
    {
        let c = s.get_char(i);
        let ghost t = s@.subrange(start as int, i + 1);
        assert(t.drop_last() =~= s@.subrange(start as int, i as int));
        assert(t.last() == c);
        if !('0' <= c && c <= '9') {
            assert(b[i - start] == c);
            return None;
        }
        let d = (c as u32 - '0' as u32) as u64;
        let w = v * 10 + d;
        if w > limit {
            proof {
                assert(all_digits(t));
                if all_digits(b) {
                    assert(b.subrange(0, i + 1 - start) =~= t);
                    lemma_digits_grow(b, i + 1 - start);
                }
            }
            return None;
        }
        v = w;
        i = i + 1;
    }
    assert(s@.subrange(start as int, n as int) =~= b);
    Some(v)
}

/// Parses a `u32` as `str::parse` does.
pub fn parse_u32(s: &str) -> (r: Option<u32>)
    ensures
        r == parse_u32_spec(s@),
{
    let start: usize = if s.unicode_len() > 0 && s.get_char(0) == '+' { 1 } else { 0 };
    assert(unsigned_part(s@, '+') =~= s@.subrange(start as int, s@.len() as int));
    match digits_upto(s, start, 0xffff_ffff) {
        Some(v) => Some(v as u32),
        None => None,
    }
}

/// Parses an `i32` as `str::parse` does.
pub fn parse_i32(s: &str) -> (r: Option<i32>)
    ensures
        r == parse_i32_spec(s@),
{
    if s.unicode_len() > 0 && s.get_char(0) == '-' {
        assert(s@.drop_first() =~= s@.subrange(1, s@.len() as int));
        match digits_upto(s, 1, 0x8000_0000) {
            Some(v) => Some((0 - (v as i64)) as i32),
            None => None,
        }
    } else {
        let start: usize = if s.unicode_len() > 0 && s.get_char(0) == '+' { 1 } else { 0 };
        assert(unsigned_part(s@, '+') =~= s@.subrange(start as int, s@.len() as int));
        match digits_upto(s, start, 0x7fff_ffff) {
            Some(v) => Some(v as i32),
            None => None,
        }
    }
}

/// The date-time of an EXIF `YYYY:MM:DD HH:MM:SS` text: a date and a time
/// separated by one space, each of three colon-separated numbers, that
/// make a valid calendar date-time.
pub open spec fn exif_datetime_of(s: Seq<char>) -> Option<DateTime> {
    let halves = split_on(s, ' ');
    if halves.len() != 2 {
        None
    } else {
        let d = split_on(halves[0], ':');
        let t = split_on(halves[1], ':');
        if d.len() != 3 || t.len() != 3 {
            None
        } else {
            match (
                parse_i32_spec(d[0]),
                parse_u32_spec(d[1]),
                parse_u32_spec(d[2]),
                parse_u32_spec(t[0]),
                parse_u32_spec(t[1]),
                parse_u32_spec(t[2]),
            ) {
                (Some(y), Some(mo), Some(da), Some(h), Some(mi), Some(se)) => if valid_civil(
                    y as int,
                    mo as int,
                    da as int,
                    h as int,
                    mi as int,
                    se as int,
                ) {
                    Some(DateTime { year: y, month: mo, day: da, hour: h, minute: mi, second: se })
                } else {
                    None
                },
                _ => None,
            }
        }
    }
}

/// Parses an EXIF date-time such as `2023:12:25 15:30:00` as UTC.
pub fn parse_exif_datetime(date_str: &str) -> (r: Option<DateTime>)
    ensures
        r == exif_datetime_of(date_str@),
{
    let halves = split_char(date_str, ' ');
    if halves.len() != 2 {
        return None;
    }
    let d = split_char(halves[0].as_str(), ':');
    let t = split_char(halves[1].as_str(), ':');
    assert(halves@[0]@ == views(halves@)[0]);
    assert(halves@[1]@ == views(halves@)[1]);
    if d.len() != 3 || t.len() != 3 {
        return None;
    }
    assert(d@[0]@ == views(d@)[0] && d@[1]@ == views(d@)[1] && d@[2]@ == views(d@)[2]);
    assert(t@[0]@ == views(t@)[0] && t@[1]@ == views(t@)[1] && t@[2]@ == views(t@)[2]);
    let year = match parse_i32(d[0].as_str()) {
        Some(v) => v,
        None => return None,
    };
    let month = match parse_u32(d[1].as_str()) {
        Some(v) => v,
        None => return None,
    };
    let day = match parse_u32(d[2].as_str()) {
        Some(v) => v,
        None => return None,
    };
    let hour = match parse_u32(t[0].as_str()) {
        Some(v) => v,
        None => return None,
    };
    let minute = match parse_u32(t[1].as_str()) {
        Some(v) => v,
        None => return None,
    };
    let second = match parse_u32(t[2].as_str()) {
        Some(v) => v,
        None => return None,
    };
    civil_date_time(year, month, day, hour, minute, second)
}

/// The EXIF fields of a photo's primary image that the metadata reader
/// looks at.
#[derive(Clone, Debug, Default)]
pub struct ExifFields {
    pub make: Option<ExifValue>,
    pub model: Option<ExifValue>,
    pub date_time_original: Option<ExifValue>,
    pub gps_latitude: Option<ExifValue>,
    pub gps_latitude_ref: Option<ExifValue>,
    pub gps_longitude: Option<ExifValue>,
    pub gps_longitude_ref: Option<ExifValue>,
    pub iso_speed: Option<ExifValue>,
    pub exposure_time: Option<ExifValue>,
    pub f_number: Option<ExifValue>,
    pub focal_length: Option<ExifValue>,
}

pub open spec fn text_field(v: Option<ExifValue>) -> Option<Seq<char>> {
    match v {
        Some(ExifValue::Ascii(parts)) if parts@.len() > 0 => Some(lossy_text(parts@[0]@)),
        _ => None,
    }
}

pub open spec fn opt_text(o: Option<String>) -> Option<Seq<char>> {
    match o {
        Some(s) => Some(s@),
        None => None,
    }
}

/// The metadata that a photo's EXIF fields give: camera, capture time,
/// coordinates with their fuzzed copies, and exposure settings.
pub fn metadata_from_fields(f: &ExifFields) -> (m: ExifMetadata)
    ensures
        opt_text(m.camera_make) == text_field(f.make),
        opt_text(m.camera_model) == text_field(f.model),
        m.date_time == (match text_field(f.date_time_original) {
            Some(t) => exif_datetime_of(t),
            None => None,
        }),
        ({
            let g = gps_of(f.gps_latitude, text_field(f.gps_latitude_ref), f.gps_longitude, text_field(f.gps_longitude_ref));
            &&& m.latitude == (match g { Some(p) => Some(p.0), None => None })
            &&& m.longitude == (match g { Some(p) => Some(p.1), None => None })
            &&& match g {
                Some(p) => (m.fuzzed_latitude matches Some(a) && p.0 - 1000 < a < p.0 + 1000 && a != p.0)
                    && (m.fuzzed_longitude matches Some(b) && p.1 - 1000 < b < p.1 + 1000 && b != p.1),
                None => m.fuzzed_latitude is None && m.fuzzed_longitude is None,
            }
        }),
        m.iso == (match f.iso_speed {
            Some(ExifValue::Short(xs)) if xs@.len() > 0 => Some(xs@[0] as u32),
            Some(ExifValue::Long(xs)) if xs@.len() > 0 => Some(xs@[0]),
            _ => None,
        }),
        opt_text(m.exposure_time) == (match f.exposure_time {
            Some(ExifValue::Rational(xs)) if xs@.len() > 0 => Some(rational_text(xs@[0].0, xs@[0].1)),
            _ => None,
        }),
        m.f_number == (match f.f_number {
            Some(ExifValue::Rational(xs)) if xs@.len() > 0 => tenths_of(xs@[0].0, xs@[0].1),
            _ => None,
        }),
        m.focal_length == (match f.focal_length {
            Some(ExifValue::Rational(xs)) if xs@.len() > 0 => tenths_of(xs@[0].0, xs@[0].1),
            _ => None,
        }),
{
    let camera_make = get_exif_string(f.make.as_ref());
    let camera_model = get_exif_string(f.model.as_ref());
    let date_time = match get_exif_string(f.date_time_original.as_ref()) {
        Some(t) => parse_exif_datetime(t.as_str()),
        None => None,
    };
    let gps = extract_gps_coordinates(
        f.gps_latitude.as_ref(),
        f.gps_latitude_ref.as_ref(),
        f.gps_longitude.as_ref(),
        f.gps_longitude_ref.as_ref(),
    );
    let (latitude, longitude) = match gps {
        Some((a, b)) => (Some(a), Some(b)),
        None => (None, None),
    };
    let mut m = ExifMetadata {
        camera_make,
        camera_model,
        date_time,
        latitude,
        longitude,
        fuzzed_latitude: None,
        fuzzed_longitude: None,
        iso: get_exif_u32(f.iso_speed.as_ref()),
        exposure_time: get_exif_rational_as_string(f.exposure_time.as_ref()),
        f_number: get_exif_tenths(f.f_number.as_ref()),
        focal_length: get_exif_tenths(f.focal_length.as_ref()),
    };
    if m.latitude.is_some() && m.longitude.is_some() {
        fuzz_coordinates(&mut m);
    }
    m
}

} // verus!
