//! The output shaper: photo titles, the page of a single photo, and the page
//! that enumerates a whole gallery.

use vstd::prelude::*;
use crate::datetime::{DateTime, long_date, long_date_of, stamp, stamp_of};
use crate::geocode::opt_view;
use crate::model::{Gallery, IndexedPhoto, Location, views};
use crate::config::PrivacyConfig;
use crate::index::{PhotoIndex, indexed_members};
use crate::text::{decimal, digit_char, push_decimal, trim, trimmed, str_eq};

verus! {

/// `, x` for a present part, nothing for an absent one.
pub open spec fn part(o: Option<Seq<char>>) -> Seq<char> {
    match o {
        Some(x) => ", "@ + x,
        None => Seq::empty(),
    }
}

/// The place of a title: the city if known, else the full address.
pub open spec fn place_part(loc: Option<Location>) -> Option<Seq<char>> {
    match loc {
        Some(l) => match l.city {
            Some(c) => Some(c@),
            None => Some(l.formatted_address@),
        },
        None => None,
    }
}

/// The camera of a title: make and model (each trimmed) when both are
/// known, else whichever is.
pub open spec fn camera_part(make: Option<String>, model: Option<String>) -> Option<Seq<char>> {
    match (make, model) {
        (Some(a), Some(b)) => Some(trimmed(a@) + " "@ + trimmed(b@)),
        (None, Some(b)) => Some(b@),
        (Some(a), None) => Some(a@),
        (None, None) => None,
    }
}

/// A title: the date, then the place and the camera where known, joined
/// by commas.
pub open spec fn title_text(
    date: Seq<char>,
    loc: Option<Location>,
    make: Option<String>,
    model: Option<String>,
) -> Seq<char> {
    date + part(place_part(loc)) + part(camera_part(make, model))
}

/// The date a photo displays: the capture time when known, else the
/// remote creation time.
pub open spec fn display_date(p: IndexedPhoto) -> DateTime {
    match p.exif_date_time {
        Some(d) => d,
        None => p.created_at,
    }
}

pub open spec fn dates_wf(p: IndexedPhoto) -> bool {
    &&& p.created_at.wf()
    &&& p.exif_date_time matches Some(d) ==> d.wf()
}

pub open spec fn photo_title(p: IndexedPhoto) -> Seq<char> {
    let d = display_date(p);
    title_text(
        long_date_of(d.year as int, d.month as int, d.day as int),
        p.location,
        p.camera_make,
        p.camera_model,
    )
}

fn push_part(s: &mut String, o: Option<&str>)
    ensures
        final(s)@ == old(s)@ + part(match o {
            Some(x) => Some(x@),
            None => None,
        }),
{
    match o {
        Some(x) => {
            s.append(", ");
            s.append(x);
        },
        None => {},
    }
}

/// Joins a long date with the place and camera parts that are present.
pub fn compose_title(
    date_text: &str,
    location: &Option<Location>,
    camera_make: &Option<String>,
    camera_model: &Option<String>,
) -> (r: String)
    ensures
        r@ == title_text(date_text@, *location, *camera_make, *camera_model),
{
    let mut s = date_text.to_owned();
    match location {
        Some(l) => match &l.city {
            Some(c) => push_part(&mut s, Some(c.as_str())),
            None => push_part(&mut s, Some(l.formatted_address.as_str())),
        },
        None => push_part(&mut s, None),
    }
    match (camera_make, camera_model) {
        (Some(a), Some(b)) => {
            let mut cam = trim(a.as_str());
            cam.append(" ");
            let tb = trim(b.as_str());
            cam.append(tb.as_str());
            push_part(&mut s, Some(cam.as_str()));
        },
        (None, Some(b)) => push_part(&mut s, Some(b.as_str())),
        (Some(a), None) => push_part(&mut s, Some(a.as_str())),
        (None, None) => push_part(&mut s, None),
    }
    s
}

/// The title of a photo: its display date in long form, then place and
/// camera.
pub fn format_photo_title(photo: &IndexedPhoto) -> (r: String)
    requires
        dates_wf(*photo),
    ensures
        r@ == photo_title(*photo),
{
    let d = match photo.exif_date_time {
        Some(d) => d,
        None => photo.created_at,
    };
    let date_text = long_date(&d);
    compose_title(date_text.as_str(), &photo.location, &photo.camera_make, &photo.camera_model)
}

/// A frontmatter line `key: value`.
pub open spec fn kv(key: Seq<char>, value: Seq<char>) -> Seq<char> {
    key + ": "@ + value + "\n"@
}

/// A frontmatter line for a present value, nothing for an absent one.
pub open spec fn opt_kv(key: Seq<char>, o: Option<Seq<char>>) -> Seq<char> {
    match o {
        Some(v) => kv(key, v),
        None => Seq::empty(),
    }
}

pub open spec fn six_digits(n: nat) -> Seq<char> {
    seq![
        digit_char(n / 100000),
        digit_char((n / 10000) % 10),
        digit_char((n / 1000) % 10),
        digit_char((n / 100) % 10),
        digit_char((n / 10) % 10),
        digit_char(n % 10),
    ]
}

/// Millionths of a degree written in degrees with six decimals.
pub open spec fn degrees6(v: int) -> Seq<char> {
    let a: nat = if v < 0 { (-v) as nat } else { v as nat };
    (if v < 0 { seq!['-'] } else { Seq::empty() }) + decimal(a / 1000000) + seq!['.'] + six_digits(a % 1000000)
}

/// Tenths written with one decimal.
pub open spec fn tenths(t: nat) -> Seq<char> {
    decimal(t / 10) + seq!['.', digit_char(t % 10)]
}

pub open spec fn opt_degrees(o: Option<i64>) -> Option<Seq<char>> {
    match o {
        Some(v) => Some(degrees6(v as int)),
        None => None,
    }
}

pub open spec fn opt_decimal(o: Option<u32>) -> Option<Seq<char>> {
    match o {
        Some(v) => Some(decimal(v as nat)),
        None => None,
    }
}

pub open spec fn opt_tenths(o: Option<u32>) -> Option<Seq<char>> {
    match o {
        Some(v) => Some(tenths(v as nat)),
        None => None,
    }
}

/// The place lines of a photo page.
pub open spec fn location_lines(loc: Option<Location>) -> Seq<char> {
    match loc {
        Some(l) => kv("location"@, l.formatted_address@) + opt_kv("city"@, opt_view(l.city)) + opt_kv(
            "state"@,
            opt_view(l.state),
        ) + opt_kv("country"@, opt_view(l.country)),
        None => Seq::empty(),
    }
}

pub open spec fn caption_body(c: Option<String>) -> Seq<char> {
    match c {
        Some(x) => x@,
        None => Seq::empty(),
    }
}

/// The page of one photo: frontmatter with its fields and whatever
/// metadata is present, then the caption.
pub open spec fn photo_page_text(
    p: IndexedPhoto,
    title: Seq<char>,
    date: Seq<char>,
    exif_date: Option<Seq<char>>,
) -> Seq<char> {
    "---\n"@ + kv("title"@, title) + kv("date"@, date) + kv("guid"@, p.guid@) + kv(
        "original_filename"@,
        p.filename@,
    ) + kv("width"@, decimal(p.width as nat)) + kv("height"@, decimal(p.height as nat)) + kv(
        "mime_type"@,
        p.mime_type@,
    ) + opt_kv("camera_make"@, opt_view(p.camera_make)) + opt_kv(
        "camera_model"@,
        opt_view(p.camera_model),
    ) + opt_kv("exif_date"@, exif_date) + opt_kv("original_latitude"@, opt_degrees(p.latitude))
        + opt_kv("original_longitude"@, opt_degrees(p.longitude)) + opt_kv(
        "latitude"@,
        opt_degrees(p.fuzzed_latitude),
    ) + opt_kv("longitude"@, opt_degrees(p.fuzzed_longitude)) + opt_kv("iso"@, opt_decimal(p.iso))
        + opt_kv("exposure_time"@, opt_view(p.exposure_time)) + opt_kv(
        "f_number"@,
        opt_tenths(p.f_number),
    ) + opt_kv("focal_length"@, opt_tenths(p.focal_length)) + location_lines(p.location)
        + "---\n\n"@ + caption_body(p.caption)
}

fn push_six_digits(s: &mut String, n: u64)
    requires
        n < 1000000,
    ensures
        final(s)@ == old(s)@ + six_digits(n as nat),
{
    push_decimal(s, n / 100000);
    push_decimal(s, (n / 10000) % 10);
    push_decimal(s, (n / 1000) % 10);
    push_decimal(s, (n / 100) % 10);
    push_decimal(s, (n / 10) % 10);
    push_decimal(s, n % 10);
    assert(decimal((n / 100000) as nat) == seq![digit_char((n / 100000) as nat)]);
    assert(decimal(((n / 10000) % 10) as nat) == seq![digit_char(((n / 10000) % 10) as nat)]);
    assert(decimal(((n / 1000) % 10) as nat) == seq![digit_char(((n / 1000) % 10) as nat)]);
    assert(decimal(((n / 100) % 10) as nat) == seq![digit_char(((n / 100) % 10) as nat)]);
    assert(decimal(((n / 10) % 10) as nat) == seq![digit_char(((n / 10) % 10) as nat)]);
    assert(decimal((n % 10) as nat) == seq![digit_char((n % 10) as nat)]);
    assert(final(s)@ =~= old(s)@ + six_digits(n as nat));
}

/// Appends millionths of a degree in degrees with six decimals.
pub fn push_degrees6(s: &mut String, v: i64)
    ensures
        final(s)@ == old(s)@ + degrees6(v as int),
{
    proof {
        reveal_strlit("-");
        reveal_strlit(".");
    }
    let a: u64 = if v < 0 { (0 - (v as i128)) as u64 } else { v as u64 };
    let ghost s0 = s@;
    if v < 0 {
        s.append("-");
    }
    let ghost s1 = s@;
    push_decimal(s, a / 1000000);
    s.append(".");
    push_six_digits(s, a % 1000000);
    assert(s1 == s0 + (if v < 0 { seq!['-'] } else { Seq::<char>::empty() }));
    assert(s@ =~= s0 + degrees6(v as int));
}

/// Appends tenths with one decimal.
pub fn push_tenths(s: &mut String, t: u32)
    ensures
        final(s)@ == old(s)@ + tenths(t as nat),
{
    proof {
        reveal_strlit(".");
    }
    let ghost s0 = s@;
    push_decimal(s, (t / 10) as u64);
    s.append(".");
    push_decimal(s, (t % 10) as u64);
    assert(decimal((t % 10) as nat) == seq![digit_char((t % 10) as nat)]);
    assert(s@ =~= s0 + tenths(t as nat));
}

fn push_kv(s: &mut String, key: &str, value: &str)
    ensures
        final(s)@ == old(s)@ + kv(key@, value@),
{
    let ghost s0 = s@;
    s.append(key);
    s.append(": ");
    s.append(value);
    s.append("\n");
    assert(s@ =~= s0 + kv(key@, value@));
}

fn push_opt_kv(s: &mut String, key: &str, o: &Option<String>)
    ensures
        final(s)@ == old(s)@ + opt_kv(key@, opt_view(*o)),
{
    match o {
        Some(v) => push_kv(s, key, v.as_str()),
        None => {},
    }
}

fn push_opt_degrees(s: &mut String, key: &str, o: Option<i64>)
    ensures
        final(s)@ == old(s)@ + opt_kv(key@, opt_degrees(o)),
{
    match o {
        Some(v) => {
            let mut t = String::new();
            push_degrees6(&mut t, v);
            assert(t@ =~= degrees6(v as int));
            push_kv(s, key, t.as_str());
        },
        None => {},
    }
}

fn push_opt_decimal(s: &mut String, key: &str, o: Option<u32>)
    ensures
        final(s)@ == old(s)@ + opt_kv(key@, opt_decimal(o)),
{
    match o {
        Some(v) => {
            let mut t = String::new();
            push_decimal(&mut t, v as u64);
            assert(t@ =~= decimal(v as nat));
            push_kv(s, key, t.as_str());
        },
        None => {},
    }
}

fn push_opt_tenths(s: &mut String, key: &str, o: Option<u32>)
    ensures
        final(s)@ == old(s)@ + opt_kv(key@, opt_tenths(o)),
{
    match o {
        Some(v) => {
            let mut t = String::new();
            push_tenths(&mut t, v);
            assert(t@ =~= tenths(v as nat));
            push_kv(s, key, t.as_str());
        },
        None => {},
    }
}

fn push_location(s: &mut String, loc: &Option<Location>)
    ensures
        final(s)@ == old(s)@ + location_lines(*loc),
{
    match loc {
        Some(l) => {
            let ghost s0 = s@;
            push_kv(s, "location", l.formatted_address.as_str());
            push_opt_kv(s, "city", &l.city);
            push_opt_kv(s, "state", &l.state);
            push_opt_kv(s, "country", &l.country);
            assert(s@ =~= s0 + location_lines(*loc));
        },
        None => {},
    }
}

/// The page of one photo, given its title and its formatted dates.
pub fn render_photo_page(
    photo: &IndexedPhoto,
    title: &str,
    date: &str,
    exif_date: &Option<String>,
) -> (r: String)
    ensures
        r@ == photo_page_text(*photo, title@, date@, opt_view(*exif_date)),
{
    let mut s = String::from_str("---\n");
    push_kv(&mut s, "title", title);
    push_kv(&mut s, "date", date);
    push_kv(&mut s, "guid", photo.guid.as_str());
    push_kv(&mut s, "original_filename", photo.filename.as_str());
    push_opt_decimal(&mut s, "width", Some(photo.width));
    push_opt_decimal(&mut s, "height", Some(photo.height));
    push_kv(&mut s, "mime_type", photo.mime_type.as_str());
    push_opt_kv(&mut s, "camera_make", &photo.camera_make);
    push_opt_kv(&mut s, "camera_model", &photo.camera_model);
    push_opt_kv(&mut s, "exif_date", exif_date);
    push_opt_degrees(&mut s, "original_latitude", photo.latitude);
    push_opt_degrees(&mut s, "original_longitude", photo.longitude);
    push_opt_degrees(&mut s, "latitude", photo.fuzzed_latitude);
    push_opt_degrees(&mut s, "longitude", photo.fuzzed_longitude);
    push_opt_decimal(&mut s, "iso", photo.iso);
    push_opt_kv(&mut s, "exposure_time", &photo.exposure_time);
    push_opt_tenths(&mut s, "f_number", photo.f_number);
    push_opt_tenths(&mut s, "focal_length", photo.focal_length);
    push_location(&mut s, &photo.location);
    s.append("---\n\n");
    match &photo.caption {
        Some(c) => s.append(c.as_str()),
        None => {},
    }
    assert(s@ =~= photo_page_text(*photo, title@, date@, opt_view(*exif_date)));
    s
}

/// The page of one photo: its title, creation stamp and capture stamp are
/// formatted here and handed to `render_photo_page`.
pub fn create_index_md(photo: &IndexedPhoto) -> (r: String)
    requires
        dates_wf(*photo),
    ensures
        r@ == photo_page_text(
            *photo,
            photo_title(*photo),
            stamp_of(
                photo.created_at.year as int,
                photo.created_at.month as int,
                photo.created_at.day as int,
                photo.created_at.hour as int,
                photo.created_at.minute as int,
                photo.created_at.second as int,
            ),
            match photo.exif_date_time {
                Some(d) => Some(
                    stamp_of(
                        d.year as int,
                        d.month as int,
                        d.day as int,
                        d.hour as int,
                        d.minute as int,
                        d.second as int,
                    ),
                ),
                None => None,
            },
        ),
{
    let title = format_photo_title(photo);
    let date = stamp(&photo.created_at);
    let exif_date = match photo.exif_date_time {
        Some(d) => Some(stamp(&d)),
        None => None,
    };
    render_photo_page(photo, title.as_str(), date.as_str(), &exif_date)
}

/// The file extension for a media type; `jpg` for types not listed.
pub open spec fn ext_of(mime: Seq<char>) -> Seq<char> {
    if mime == "image/jpeg"@ {
        "jpg"@
    } else if mime == "image/png"@ {
        "png"@
    } else if mime == "image/heic"@ {
        "heic"@
    } else if mime == "image/gif"@ {
        "gif"@
    } else if mime == "image/webp"@ {
        "webp"@
    } else if mime == "video/mp4"@ {
        "mp4"@
    } else {
        "jpg"@
    }
}

/// The file extension for a media type; `jpg` for types not listed.
pub fn extension_for(mime: &str) -> (r: &'static str)
    ensures
        r@ == ext_of(mime@),
{
    if str_eq(mime, "image/jpeg") {
        "jpg"
    } else if str_eq(mime, "image/png") {
        "png"
    } else if str_eq(mime, "image/heic") {
        "heic"
    } else if str_eq(mime, "image/gif") {
        "gif"
    } else if str_eq(mime, "image/webp") {
        "webp"
    } else if str_eq(mime, "video/mp4") {
        "mp4"
    } else {
        "jpg"
    }
}

/// The file a photo is stored under in a gallery directory.
pub open spec fn file_name(p: IndexedPhoto) -> Seq<char> {
    p.guid@ + "."@ + ext_of(p.mime_type@)
}

pub fn gallery_file_name(photo: &IndexedPhoto) -> (r: String)
    ensures
        r@ == file_name(*photo),
{
    let mut s = photo.guid.as_str().to_owned();
    s.append(".");
    s.append(extension_for(photo.mime_type.as_str()));
    s
}

/// The text with each `"` preceded by a backslash.
pub open spec fn escape_quotes(t: Seq<char>) -> Seq<char>
    decreases t.len(),
{
    if t.len() == 0 {
        Seq::empty()
    } else {
        escape_quotes(t.drop_last()) + (if t.last() == '"' {
            seq!['\\', '"']
        } else {
            seq![t.last()]
        })
    }
}

pub fn escape(t: &str) -> (r: String)
    ensures
        r@ == escape_quotes(t@),
{
    proof {
        reveal_strlit("\\\"");
    }
    let n = t.unicode_len();
    let mut s = String::new();
    let mut i: usize = 0;
    while i < n
        invariant
            n == t@.len(),
            i <= n,
            s@ == escape_quotes(t@.subrange(0, i as int)),
        decreases n - i,
    {
        assert(t@.subrange(0, i + 1).drop_last() =~= t@.subrange(0, i as int));
        assert(t@.subrange(0, i + 1).last() == t@[i as int]);
        if t.get_char(i) == '"' {
            proof {
                reveal_strlit("\\\"");
            }
            s.append("\\\"");
        } else {
            let piece = t.substring_char(i, i + 1);
            assert(piece@ =~= seq![t@[i as int]]);
            s.append(piece);
        }
        assert(s@ =~= escape_quotes(t@.subrange(0, i + 1)));
        i = i + 1;
    }
    assert(t@.subrange(0, n as int) =~= t@);
    s
}

/// A quoted list-entry line `    key: "value"`.
pub open spec fn quoted_kv(key: Seq<char>, value: Seq<char>) -> Seq<char> {
    "    "@ + key + ": \""@ + value + "\"\n"@
}

pub open spec fn opt_quoted(key: Seq<char>, o: Option<String>) -> Seq<char> {
    match o {
        Some(v) => quoted_kv(key, v@),
        None => Seq::empty(),
    }
}

/// The frontmatter entry of one gallery photo.
pub open spec fn gallery_entry(p: IndexedPhoto, title: Seq<char>, date: Seq<char>) -> Seq<char> {
    "  - filename: "@ + file_name(p) + "\n"@ + quoted_kv("caption"@, title) + quoted_kv(
        "mime_type"@,
        p.mime_type@,
    ) + (match p.caption {
        Some(c) => if trimmed(c@).len() > 0 {
            quoted_kv("original_caption"@, c@)
        } else {
            Seq::empty()
        },
        None => Seq::empty(),
    }) + (match p.location {
        Some(l) => quoted_kv("location"@, l.formatted_address@),
        None => Seq::empty(),
    }) + opt_quoted("camera_make"@, p.camera_make) + opt_quoted("camera_model"@, p.camera_model)
        + "    date: "@ + date + "\n"@
}

/// The embed of one gallery photo: a video shortcode for `video/mp4`, a
/// figure shortcode otherwise.
pub open spec fn gallery_embed(p: IndexedPhoto, title: Seq<char>) -> Seq<char> {
    let c = escape_quotes(title);
    if p.mime_type@ == "video/mp4"@ {
        "{{< video src=\""@ + file_name(p) + "\" caption=\""@ + c + "\" >}}\n\n"@
    } else {
        "{{< figure\n  src=\""@ + file_name(p) + "\"\n  alt=\""@ + c + "\"\n  caption=\""@ + c
            + "\"\n  class=\"ma0 w-75\"\n>}}\n\n"@
    }
}

pub open spec fn entries_upto(
    ps: Seq<IndexedPhoto>,
    titles: Seq<Seq<char>>,
    dates: Seq<Seq<char>>,
    n: nat,
) -> Seq<char>
    decreases n,
{
    if n == 0 {
        Seq::empty()
    } else {
        entries_upto(ps, titles, dates, (n - 1) as nat) + gallery_entry(
            ps[n - 1],
            titles[n - 1],
            dates[n - 1],
        )
    }
}

pub open spec fn embeds_upto(ps: Seq<IndexedPhoto>, titles: Seq<Seq<char>>, n: nat) -> Seq<char>
    decreases n,
{
    if n == 0 {
        Seq::empty()
    } else {
        embeds_upto(ps, titles, (n - 1) as nat) + gallery_embed(ps[n - 1], titles[n - 1])
    }
}

pub open spec fn flag(on: bool, line: Seq<char>) -> Seq<char> {
    if on {
        line
    } else {
        Seq::empty()
    }
}

/// The frontmatter of a gallery page up to its photo list.
pub open spec fn gallery_head(g: Gallery, privacy: PrivacyConfig, date: Seq<char>, n: nat) -> Seq<char> {
    "---\n"@ + kv("title"@, g.name@) + kv("date"@, date) + "type: gallery\nlayout: gallery\n"@ + kv(
        "uuid"@,
        g.uuid@,
    ) + flag(privacy.uuid_slug, kv("slug"@, g.uuid@)) + flag(privacy.nofeed, "nofeed: true\n"@) + flag(
        privacy.noindex,
        "noindex: true\n"@,
    ) + flag(privacy.unlisted, "unlisted: true\n"@) + flag(
        privacy.robots_noindex,
        "robots: noindex,nofollow\n"@,
    ) + (match g.description {
        Some(d) => "description: \""@ + d@ + "\"\n"@,
        None => Seq::empty(),
    }) + kv("photo_count"@, decimal(n)) + "photos:\n"@
}

/// The page of a gallery: frontmatter with its privacy flags and one entry
/// per photo, then the description and one embed per photo.
pub open spec fn gallery_page_text(
    g: Gallery,
    privacy: PrivacyConfig,
    date: Seq<char>,
    ps: Seq<IndexedPhoto>,
    titles: Seq<Seq<char>>,
    dates: Seq<Seq<char>>,
) -> Seq<char> {
    gallery_head(g, privacy, date, ps.len()) + entries_upto(ps, titles, dates, ps.len()) + "---\n\n"@
        + (match g.description {
        Some(d) => d@ + "\n\n"@,
        None => Seq::empty(),
    }) + embeds_upto(ps, titles, ps.len())
}

fn push_flag(s: &mut String, on: bool, line: &str)
    ensures
        final(s)@ == old(s)@ + flag(on, line@),
{
    if on {
        s.append(line);
    } else {
        assert(s@ =~= s@ + flag(on, line@));
    }
}

fn push_slug(s: &mut String, on: bool, uuid: &str)
    ensures
        final(s)@ == old(s)@ + flag(on, kv("slug"@, uuid@)),
{
    if on {
        push_kv(s, "slug", uuid);
    } else {
        assert(s@ =~= s@ + flag(on, kv("slug"@, uuid@)));
    }
}

fn push_description_line(s: &mut String, d: &Option<String>)
    ensures
        final(s)@ == old(s)@ + (match *d {
            Some(x) => "description: \""@ + x@ + "\"\n"@,
            None => Seq::empty(),
        }),
{
    let ghost s0 = s@;
    match d {
        Some(x) => {
            s.append("description: \"");
            s.append(x.as_str());
            s.append("\"\n");
        },
        None => {},
    }
    assert(s@ =~= s0 + (match *d {
        Some(x) => "description: \""@ + x@ + "\"\n"@,
        None => Seq::empty(),
    }));
}

fn push_gallery_head(s: &mut String, gallery: &Gallery, privacy: &PrivacyConfig, date: &str, n: usize)
    ensures
        final(s)@ == old(s)@ + gallery_head(*gallery, *privacy, date@, n as nat),
{
    let mut h = String::from_str("---\n");
    push_kv(&mut h, "title", gallery.name.as_str());
    push_kv(&mut h, "date", date);
    h.append("type: gallery\nlayout: gallery\n");
    push_kv(&mut h, "uuid", gallery.uuid.as_str());
    push_slug(&mut h, privacy.uuid_slug, gallery.uuid.as_str());
    push_flag(&mut h, privacy.nofeed, "nofeed: true\n");
    push_flag(&mut h, privacy.noindex, "noindex: true\n");
    push_flag(&mut h, privacy.unlisted, "unlisted: true\n");
    push_flag(&mut h, privacy.robots_noindex, "robots: noindex,nofollow\n");
    push_description_line(&mut h, &gallery.description);
    let mut count = String::new();
    push_decimal(&mut count, n as u64);
    assert(count@ =~= decimal(n as nat));
    push_kv(&mut h, "photo_count", count.as_str());
    h.append("photos:\n");
    s.append(h.as_str());
}

pub open spec fn derefs(v: Seq<&IndexedPhoto>) -> Seq<IndexedPhoto> {
    v.map_values(|p: &IndexedPhoto| *p)
}

fn push_quoted(s: &mut String, key: &str, value: &str)
    ensures
        final(s)@ == old(s)@ + quoted_kv(key@, value@),
{
    let ghost s0 = s@;
    s.append("    ");
    s.append(key);
    s.append(": \"");
    s.append(value);
    s.append("\"\n");
    assert(s@ =~= s0 + quoted_kv(key@, value@));
}

fn push_opt_quoted(s: &mut String, key: &str, o: &Option<String>)
    ensures
        final(s)@ == old(s)@ + opt_quoted(key@, *o),
{
    match o {
        Some(v) => push_quoted(s, key, v.as_str()),
        None => {
            assert(s@ =~= s@ + opt_quoted(key@, *o));
        },
    }
}

fn push_original_caption(s: &mut String, c: &Option<String>)
    ensures
        final(s)@ == old(s)@ + (match *c {
            Some(x) => if trimmed(x@).len() > 0 {
                quoted_kv("original_caption"@, x@)
            } else {
                Seq::empty()
            },
            None => Seq::empty(),
        }),
{
    let ghost s0 = s@;
    match c {
        Some(x) => {
            let t = trim(x.as_str());
            if t.unicode_len() > 0 {
                push_quoted(s, "original_caption", x.as_str());
            }
        },
        None => {},
    }
    assert(s@ =~= s0 + (match *c {
        Some(x) => if trimmed(x@).len() > 0 {
            quoted_kv("original_caption"@, x@)
        } else {
            Seq::empty()
        },
        None => Seq::empty(),
    }));
}

fn push_quoted_location(s: &mut String, loc: &Option<Location>)
    ensures
        final(s)@ == old(s)@ + (match *loc {
            Some(l) => quoted_kv("location"@, l.formatted_address@),
            None => Seq::empty(),
        }),
{
    let ghost s0 = s@;
    match loc {
        Some(l) => push_quoted(s, "location", l.formatted_address.as_str()),
        None => {},
    }
    assert(s@ =~= s0 + (match *loc {
        Some(l) => quoted_kv("location"@, l.formatted_address@),
        None => Seq::empty(),
    }));
}

fn push_gallery_entry(s: &mut String, p: &IndexedPhoto, title: &str, date: &str)
    ensures
        final(s)@ == old(s)@ + gallery_entry(*p, title@, date@),
{
    let mut e = String::from_str("  - filename: ");
    let f = gallery_file_name(p);
    e.append(f.as_str());
    e.append("\n");
    push_quoted(&mut e, "caption", title);
    push_quoted(&mut e, "mime_type", p.mime_type.as_str());
    push_original_caption(&mut e, &p.caption);
    push_quoted_location(&mut e, &p.location);
    push_opt_quoted(&mut e, "camera_make", &p.camera_make);
    push_opt_quoted(&mut e, "camera_model", &p.camera_model);
    e.append("    date: ");
    e.append(date);
    e.append("\n");
    s.append(e.as_str());
}

fn push_gallery_embed(s: &mut String, p: &IndexedPhoto, title: &str)
    ensures
        final(s)@ == old(s)@ + gallery_embed(*p, title@),
{
    let f = gallery_file_name(p);
    let c = escape(title);
    if str_eq(p.mime_type.as_str(), "video/mp4") {
        let mut e = String::from_str("{{< video src=\"");
        e.append(f.as_str());
        e.append("\" caption=\"");
        e.append(c.as_str());
        e.append("\" >}}\n\n");
        s.append(e.as_str());
    } else {
        let mut e = String::from_str("{{< figure\n  src=\"");
        e.append(f.as_str());
        e.append("\"\n  alt=\"");
        e.append(c.as_str());
        e.append("\"\n  caption=\"");
        e.append(c.as_str());
        e.append("\"\n  class=\"ma0 w-75\"\n>}}\n\n");
        s.append(e.as_str());
    }
}

/// The page of a gallery, given its photos, their titles and their
/// formatted display dates, and the formatted date of the page.
pub fn render_gallery_page(
    gallery: &Gallery,
    privacy: &PrivacyConfig,
    date: &str,
    photos: &Vec<&IndexedPhoto>,
    titles: &Vec<String>,
    dates: &Vec<String>,
) -> (r: String)
    requires
        titles.len() == photos.len(),
        dates.len() == photos.len(),
    ensures
        r@ == gallery_page_text(*gallery, *privacy, date@, derefs(photos@), views(titles@), views(dates@)),
{
    let ghost ps = derefs(photos@);
    let ghost ts = views(titles@);
    let ghost ds = views(dates@);
    let mut s = String::new();
    push_gallery_head(&mut s, gallery, privacy, date, photos.len());
    let ghost head = s@;
    let mut i: usize = 0;
    while i < photos.len()
        invariant
            i <= photos.len(),
            titles.len() == photos.len(),
            dates.len() == photos.len(),
            ps == derefs(photos@),
            ts == views(titles@),
            ds == views(dates@),
            s@ == head + entries_upto(ps, ts, ds, i as nat),
        decreases photos.len() - i,
    {
        push_gallery_entry(&mut s, photos[i], titles[i].as_str(), dates[i].as_str());
        assert(s@ =~= head + entries_upto(ps, ts, ds, (i + 1) as nat));
        i = i + 1;
    }
    s.append("---\n\n");
    match &gallery.description {
        Some(d) => {
            s.append(d.as_str());
            s.append("\n\n");
        },
        None => {},
    }
    let ghost mid = s@;
    let mut j: usize = 0;
    while j < photos.len()
        invariant
            j <= photos.len(),
            titles.len() == photos.len(),
            ps == derefs(photos@),
            ts == views(titles@),
            s@ == mid + embeds_upto(ps, ts, j as nat),
        decreases photos.len() - j,
    {
        push_gallery_embed(&mut s, photos[j], titles[j].as_str());
        assert(s@ =~= mid + embeds_upto(ps, ts, (j + 1) as nat));
        j = j + 1;
    }
    assert(s@ =~= gallery_page_text(*gallery, *privacy, date@, ps, ts, ds));
    s
}

pub open spec fn titles_of(ps: Seq<IndexedPhoto>) -> Seq<Seq<char>> {
    ps.map_values(|p: IndexedPhoto| photo_title(p))
}

pub open spec fn display_stamp(p: IndexedPhoto) -> Seq<char> {
    let d = display_date(p);
    stamp_of(d.year as int, d.month as int, d.day as int, d.hour as int, d.minute as int, d.second as int)
}

pub open spec fn stamps_of(ps: Seq<IndexedPhoto>) -> Seq<Seq<char>> {
    ps.map_values(|p: IndexedPhoto| display_stamp(p))
}

/// Every indexed photo has valid dates.
pub open spec fn index_dates_wf(index: PhotoIndex) -> bool {
    forall|i: int| 0 <= i < index.photos.len() ==> dates_wf(#[trigger] index.photos@[i])
}

/// The page of the gallery with the given id, dated `at`; `None` when the
/// index has no such gallery.
pub fn create_gallery_index(index: &PhotoIndex, gallery_id: &str, privacy: &PrivacyConfig, at: &DateTime) -> (r:
    Option<String>)
    requires
        index.wf(),
        index_dates_wf(*index),
        at.wf(),
    ensures
        match index.find_gallery_spec(gallery_id@) {
            Some(k) => {
                let ps = indexed_members(index.galleries@[k].members(), index@);
                r matches Some(t) && t@ == gallery_page_text(
                    index.galleries@[k],
                    *privacy,
                    stamp_of(
                        at.year as int,
                        at.month as int,
                        at.day as int,
                        at.hour as int,
                        at.minute as int,
                        at.second as int,
                    ),
                    ps,
                    titles_of(ps),
                    stamps_of(ps),
                )
            },
            None => r is None,
        },
{
    match index.find_gallery(gallery_id) {
        None => {
            proof {
                index.lemma_find_gallery_spec_none(gallery_id@);
            }
            None
        },
        Some(k) => {
            proof {
                index.lemma_find_gallery_spec(k as int);
            }
            let gallery = &index.galleries[k];
            let photos = index.get_gallery_photos(gallery_id);
            let ghost ps = indexed_members(index.galleries@[k as int].members(), index@);
            assert(derefs(photos@) =~= ps);
            proof {
                crate::index::lemma_photo_map_keys(index.photos@);
                crate::index::lemma_indexed_members_in_map(index.galleries@[k as int].members(), index@);
                assert forall|j: int| 0 <= j < photos@.len() implies index@.contains_key(#[trigger] photos@[j].guid@) && index@[photos@[j].guid@] == *photos@[j] by {
                    assert(*photos@[j] == ps[j]);
                }
            }
            let mut titles: Vec<String> = Vec::new();
            let mut dates: Vec<String> = Vec::new();
            let mut i: usize = 0;
            while i < photos.len()
                invariant
                    i <= photos.len(),
                    ps == derefs(photos@),
                    index.wf(),
                    index_dates_wf(*index),
                    forall|j: int| 0 <= j < photos@.len() ==> index@.contains_key(#[trigger] photos@[j].guid@) && index@[photos@[j].guid@] == *photos@[j],
                    titles@.len() == i,
                    dates@.len() == i,
                    forall|j: int| 0 <= j < i ==> #[trigger] titles@[j]@ == photo_title(ps[j]),
                    forall|j: int| 0 <= j < i ==> #[trigger] dates@[j]@ == display_stamp(ps[j]),
                decreases photos.len() - i,
            {
                let p = photos[i];
                proof {
                    crate::index::lemma_photo_map_lookup(index.photos@);
                    let g = p.guid@;
                    let w = choose|w: int| 0 <= w < index.photos.len() && index.photos@[w].guid@ == g;
                    assert(dates_wf(index.photos@[w]));
                }
                titles.push(format_photo_title(p));
                let d = match p.exif_date_time {
                    Some(d) => d,
                    None => p.created_at,
                };
                dates.push(stamp(&d));
                i = i + 1;
            }
            assert(views(titles@) =~= titles_of(ps));
            assert(views(dates@) =~= stamps_of(ps));
            let date = stamp(at);
            Some(render_gallery_page(gallery, privacy, date.as_str(), &photos, &titles, &dates))
        },
    }
}

} // verus!
