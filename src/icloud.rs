//! The pure parts of the remote-album client: its error type, URL shapes,
//! media types, and the choice among a photo's derivatives.

use vstd::prelude::*;
use chrono::{Datelike, Timelike};
use crate::album::{Album, has_guid};
use crate::datetime::DateTime;
use crate::geocode::opt_view;
use crate::model::Photo;
use crate::render::{ext_of, extension_for};
use crate::text::{contains_seq, contains_str, ends_with, has_prefix, has_suffix, is_blank, starts_with, str_eq, trimmed};

verus! {

/// Failures of the remote-album client.
#[derive(Clone, Debug)]
pub enum ICloudError {
    InvalidUrl(String),
    InvalidToken(String),
    FetchError(String),
    PhotoProcessingError(String),
    NoDerivativesError(String),
    /// An underlying error's text under the operation that failed.
    Context { context: String, source: String },
}

impl ICloudError {
    /// Wraps an underlying error's text with a description of the operation.
    pub fn with_context(error: String, context: String) -> (r: ICloudError)
        ensures
            r == (ICloudError::Context { context, source: error }),
    {
        ICloudError::Context { context, source: error }
    }

    /// Wraps the error of a result with a description of the operation.
    pub fn context<T>(result: Result<T, String>, context: String) -> (r: Result<T, ICloudError>)
        ensures
            match result {
                Ok(v) => r == Ok::<T, ICloudError>(v),
                Err(e) => r == Err::<T, ICloudError>(ICloudError::Context { context, source: e }),
            },
    {
        match result {
            Ok(v) => Ok(v),
            Err(e) => Err(ICloudError::with_context(e, context)),
        }
    }

    pub open spec fn text(&self) -> Seq<char> {
        match self {
            ICloudError::InvalidUrl(m) => "Invalid iCloud URL: "@ + m@,
            ICloudError::InvalidToken(m) => "Invalid iCloud token: "@ + m@,
            ICloudError::FetchError(m) => "Failed to fetch album: "@ + m@,
            ICloudError::PhotoProcessingError(m) => "Error processing photo: "@ + m@,
            ICloudError::NoDerivativesError(m) => "No suitable derivatives: "@ + m@,
            ICloudError::Context { context, source } => context@ + ": "@ + source@,
        }
    }

    /// The message of the error.
    pub fn to_string(&self) -> (r: String)
        ensures
            r@ == self.text(),
    {
        let (head, tail): (&str, &str) = match self {
            ICloudError::InvalidUrl(m) => ("Invalid iCloud URL: ", m.as_str()),
            ICloudError::InvalidToken(m) => ("Invalid iCloud token: ", m.as_str()),
            ICloudError::FetchError(m) => ("Failed to fetch album: ", m.as_str()),
            ICloudError::PhotoProcessingError(m) => ("Error processing photo: ", m.as_str()),
            ICloudError::NoDerivativesError(m) => ("No suitable derivatives: ", m.as_str()),
            ICloudError::Context { context, source } => {
                let mut s = context.as_str().to_owned();
                s.append(": ");
                s.append(source.as_str());
                return s;
            },
        };
        let mut s = head.to_owned();
        s.append(tail);
        s
    }
}

/// The shapes of shared-album URLs.
#[derive(Clone, Copy, Debug, PartialEq, Eq)]
pub enum ICloudUrlFormat {
    /// `https://www.icloud.com/sharedalbum/#B0abCdEfGhIj`
    Standard,
    /// The standard shape followed by query parameters.
    WebWithParams,
    /// `https://share.icloud.com/photos/abc0defGHIjklMNO`
    Invitation,
    Unknown,
}

pub open spec fn url_format_of(u: Seq<char>) -> ICloudUrlFormat {
    if contains_seq(u, "icloud.com/sharedalbum/#B"@) {
        if contains_seq(u, "?"@) {
            ICloudUrlFormat::WebWithParams
        } else {
            ICloudUrlFormat::Standard
        }
    } else if contains_seq(u, "share.icloud.com/photos/"@) {
        ICloudUrlFormat::Invitation
    } else {
        ICloudUrlFormat::Unknown
    }
}

/// The shape of a shared-album URL.
pub fn determine_url_format(url_str: &str) -> (r: ICloudUrlFormat)
    ensures
        r == url_format_of(url_str@),
{
    if contains_str(url_str, "icloud.com/sharedalbum/#B") {
        if contains_str(url_str, "?") {
            ICloudUrlFormat::WebWithParams
        } else {
            ICloudUrlFormat::Standard
        }
    } else if contains_str(url_str, "share.icloud.com/photos/") {
        ICloudUrlFormat::Invitation
    } else {
        ICloudUrlFormat::Unknown
    }
}

/// The media type a photo's URL and derivative key suggest; JPEG when
/// neither says.
pub open spec fn mime_of(url: Seq<char>, key: Seq<char>) -> Seq<char> {
    if has_suffix(url, ".jpg"@) || has_suffix(url, ".jpeg"@) || contains_seq(key, "jpeg"@) {
        "image/jpeg"@
    } else if has_suffix(url, ".png"@) || contains_seq(key, "png"@) {
        "image/png"@
    } else if has_suffix(url, ".heic"@) || contains_seq(key, "heic"@) {
        "image/heic"@
    } else if has_suffix(url, ".gif"@) || contains_seq(key, "gif"@) {
        "image/gif"@
    } else if has_suffix(url, ".webp"@) || contains_seq(key, "webp"@) {
        "image/webp"@
    } else if has_suffix(url, ".mov"@) || contains_seq(key, "mov"@) || has_suffix(url, ".mp4"@)
        || contains_seq(key, "mp4"@) {
        "video/mp4"@
    } else {
        "image/jpeg"@
    }
}

/// The media type a photo's URL and derivative key suggest.
pub fn determine_mime_type(url: &str, derivative_key: &str) -> (r: String)
    ensures
        r@ == mime_of(url@, derivative_key@),
{
    let t: &str = if ends_with(url, ".jpg") || ends_with(url, ".jpeg") || contains_str(derivative_key, "jpeg") {
        "image/jpeg"
    } else if ends_with(url, ".png") || contains_str(derivative_key, "png") {
        "image/png"
    } else if ends_with(url, ".heic") || contains_str(derivative_key, "heic") {
        "image/heic"
    } else if ends_with(url, ".gif") || contains_str(derivative_key, "gif") {
        "image/gif"
    } else if ends_with(url, ".webp") || contains_str(derivative_key, "webp") {
        "image/webp"
    } else if ends_with(url, ".mov") || contains_str(derivative_key, "mov") || ends_with(url, ".mp4")
        || contains_str(derivative_key, "mp4") {
        "video/mp4"
    } else {
        "image/jpeg"
    };
    t.to_owned()
}

/// The media type of a remote photo whose record gives none.
pub fn default_mime_type() -> (r: String)
    ensures
        r@ == "image/jpeg"@,
{
    "image/jpeg".to_owned()
}

/// One size of a remote photo, as the album service lists it.
#[derive(Clone, Debug)]
pub struct RemoteDerivative {
    /// The service's name for this size.
    pub key: String,
    pub url: Option<String>,
    pub width: Option<u32>,
    pub height: Option<u32>,
}

/// A photo record of the album service.
#[derive(Clone, Debug)]
pub struct RemoteImage {
    pub photo_guid: String,
    pub derivatives: Vec<RemoteDerivative>,
    pub caption: Option<String>,
    /// The creation time as RFC 3339 text.
    pub date_created: Option<String>,
}

pub open spec fn dim(o: Option<u32>) -> u32 {
    match o {
        Some(v) => v,
        None => 0,
    }
}

/// A derivative named as the original that carries a URL.
pub open spec fn is_original(d: RemoteDerivative) -> bool {
    contains_seq(d.key@, "original"@) && d.url is Some
}

pub open spec fn resolution(d: RemoteDerivative) -> int {
    dim(d.width) as int * dim(d.height) as int
}

/// The first original derivative.
pub open spec fn first_original(ds: Seq<RemoteDerivative>) -> Option<int>
    decreases ds.len(),
{
    if ds.len() == 0 {
        None
    } else {
        match first_original(ds.drop_last()) {
            Some(i) => Some(i),
            None => if is_original(ds.last()) {
                Some(ds.len() - 1)
            } else {
                None
            },
        }
    }
}

/// The first derivative with a URL whose resolution no other one with a
/// URL exceeds.
pub open spec fn largest(ds: Seq<RemoteDerivative>) -> Option<int>
    decreases ds.len(),
{
    if ds.len() == 0 {
        None
    } else {
        let d = ds.last();
        match largest(ds.drop_last()) {
            Some(b) => if d.url is Some && resolution(d) > resolution(ds[b]) {
                Some(ds.len() - 1)
            } else {
                Some(b)
            },
            None => if d.url is Some {
                Some(ds.len() - 1)
            } else {
                None
            },
        }
    }
}

/// The derivative a photo is downloaded from: the original if there is
/// one, else the largest.
pub open spec fn chosen(ds: Seq<RemoteDerivative>) -> Option<int> {
    match first_original(ds) {
        Some(i) => Some(i),
        None => largest(ds),
    }
}

proof fn lemma_largest_has_url(ds: Seq<RemoteDerivative>)
    ensures
        largest(ds) matches Some(b) ==> 0 <= b < ds.len() && ds[b].url is Some,
    decreases ds.len(),
{
    if ds.len() > 0 {
        lemma_largest_has_url(ds.drop_last());
    }
}

proof fn lemma_first_original_is_original(ds: Seq<RemoteDerivative>)
    ensures
        first_original(ds) matches Some(i) ==> 0 <= i < ds.len() && is_original(ds[i]),
    decreases ds.len(),
{
    if ds.len() > 0 {
        lemma_first_original_is_original(ds.drop_last());
    }
}

/// What a derivative yields: its URL, width, height and media type.
pub open spec fn yields(d: RemoteDerivative, t: (String, u32, u32, String)) -> bool {
    &&& d.url matches Some(u) && t.0@ == u@
    &&& t.1 == dim(d.width)
    &&& t.2 == dim(d.height)
    &&& t.3@ == mime_of(t.0@, d.key@)
}

fn extract_derivative_info(d: &RemoteDerivative) -> (r: (String, u32, u32, String))
    requires
        d.url is Some,
    ensures
        yields(*d, r),
{
    let url = match &d.url {
        Some(u) => u.clone(),
        None => String::new(),
    };
    let width = match d.width {
        Some(w) => w,
        None => 0,
    };
    let height = match d.height {
        Some(h) => h,
        None => 0,
    };
    let mime = determine_mime_type(url.as_str(), d.key.as_str());
    (url, width, height, mime)
}

/// Picks the derivative to download: the first original one with a URL,
/// else the first of the largest resolution with a URL.
pub fn find_best_derivative(photo: &RemoteImage) -> (r: Result<(String, u32, u32, String), ICloudError>)
    ensures
        match chosen(photo.derivatives@) {
            Some(i) => r matches Ok(t) && yields(photo.derivatives@[i], t),
            None => r matches Err(ICloudError::NoDerivativesError(m)) && m@
                == "No derivatives with URL found for photo "@ + photo.photo_guid@,
        },
{
    let ghost ds = photo.derivatives@;
    proof {
        lemma_first_original_is_original(ds);
        lemma_largest_has_url(ds);
    }
    let n = photo.derivatives.len();
    let mut i: usize = 0;
    let mut best: Option<usize> = None;
    let mut best_res: u64 = 0;
    let mut original: Option<usize> = None;
    while i < n
        invariant
            n == ds.len(),
            ds == photo.derivatives@,
            i <= n,
            original == (match first_original(ds.subrange(0, i as int)) {
                Some(k) => Some(k as usize),
                None => None::<usize>,
            }),
            best == (match largest(ds.subrange(0, i as int)) {
                Some(k) => Some(k as usize),
                None => None::<usize>,
            }),
            best matches Some(b) ==> b < i && best_res as int == resolution(ds[b as int]),
        decreases n - i,
    {
        let d = &photo.derivatives[i];
        let ghost sub = ds.subrange(0, i + 1);
        assert(sub.drop_last() =~= ds.subrange(0, i as int));
        assert(sub.last() == ds[i as int]);
        proof {
            lemma_first_original_is_original(ds.subrange(0, i as int));
            lemma_largest_has_url(ds.subrange(0, i as int));
            if let Some(b) = largest(ds.subrange(0, i as int)) {
                assert(ds.subrange(0, i as int)[b] == ds[b]);
            }
        }
        if original.is_none() && d.url.is_some() && contains_str(d.key.as_str(), "original") {
            original = Some(i);
        }
        if d.url.is_some() {
            let w: u64 = match d.width {
                Some(w) => w as u64,
                None => 0,
            };
            let h: u64 = match d.height {
                Some(h) => h as u64,
                None => 0,
            };
            assert(w * h <= 0xffff_ffff_ffff_ffff) by (nonlinear_arith)
                requires
                    w <= 0xffff_ffff,
                    h <= 0xffff_ffff,
            ;
            let res = w * h;
            match best {
                None => {
                    best = Some(i);
                    best_res = res;
                },
                Some(_) => {
                    if res > best_res {
                        best = Some(i);
                        best_res = res;
                    }
                },
            }
        }
        i = i + 1;
    }
    assert(ds.subrange(0, n as int) =~= ds);
    match original {
        Some(k) => {
            return Ok(extract_derivative_info(&photo.derivatives[k]));
        },
        None => {},
    }
    match best {
        Some(k) => Ok(extract_derivative_info(&photo.derivatives[k])),
        None => {
            let mut m = String::from_str("No derivatives with URL found for photo ");
            m.append(photo.photo_guid.as_str());
            Err(ICloudError::NoDerivativesError(m))
        },
    }
}

/// The lowercase hexadecimal MD5 digest of a text's UTF-8 bytes.
pub uninterp spec fn md5_hex(s: Seq<char>) -> Seq<char>;

/// Relies on md5's `compute` and the digest's lower-hex form: 32 hex digits
/// that depend on the text alone.
#[verifier::external_body]
fn md5_hex_of(s: &str) -> (r: String)
    ensures
        r@ == md5_hex(s@),
        r@.len() == 32,
{
    format!("{:x}", md5::compute(s))
}

/// The change-detection checksum of a remote photo: the MD5 of
/// `<guid>:<url>`.
pub fn generate_photo_checksum(guid: &str, url: &str) -> (r: String)
    ensures
        r@ == md5_hex(guid@ + ":"@ + url@),
{
    let mut key = guid.to_owned();
    key.append(":");
    key.append(url);
    md5_hex_of(key.as_str())
}

/// What an RFC 3339 timestamp denotes in UTC, when it parses.
pub uninterp spec fn rfc3339_utc(s: Seq<char>) -> Option<DateTime>;

/// Relies on chrono's `DateTime::parse_from_rfc3339` and its conversion to
/// UTC: the outcome depends on the text alone, and a parsed time is a
/// valid date-time.
#[verifier::external_body]
fn parse_rfc3339(s: &str) -> (r: Result<DateTime, String>)
    ensures
        match r {
            Ok(d) => rfc3339_utc(s@) == Some(d) && d.wf(),
            Err(_) => rfc3339_utc(s@) is None,
        },
{
    match chrono::DateTime::parse_from_rfc3339(s) {
        Ok(t) => {
            let u = t.with_timezone(&chrono::Utc);
            Ok(DateTime {
                year: u.year(),
                month: u.month(),
                day: u.day(),
                hour: u.hour(),
                minute: u.minute(),
                second: u.second(),
            })
        },
        Err(e) => Err(e.to_string()),
    }
}

/// Parses a photo's RFC 3339 creation time into UTC.
pub fn parse_photo_date(date_str: &str) -> (r: Result<DateTime, ICloudError>)
    ensures
        match rfc3339_utc(date_str@) {
            Some(d) => r == Ok::<DateTime, ICloudError>(d) && d.wf(),
            None => r matches Err(ICloudError::PhotoProcessingError(m)) && has_prefix(
                m@,
                "Failed to parse date "@ + date_str@ + ": "@,
            ),
        },
{
    match parse_rfc3339(date_str) {
        Ok(d) => Ok(d),
        Err(e) => {
            let mut m = String::from_str("Failed to parse date ");
            m.append(date_str);
            m.append(": ");
            let ghost head = m@;
            m.append(e.as_str());
            assert(m@.subrange(0, head.len() as int) =~= head);
            Err(ICloudError::PhotoProcessingError(m))
        },
    }
}

/// The remote photo an image record describes, when its derivative and
/// date can be read; `now` stands in for a missing date.
pub open spec fn photo_of(image: RemoteImage, now: DateTime, p: Photo) -> bool {
    match chosen(image.derivatives@) {
        Some(i) => {
            let d = image.derivatives@[i];
            let url = d.url->0@;
            let mime = mime_of(url, d.key@);
            &&& p.guid@ == image.photo_guid@
            &&& p.filename@ == image.photo_guid@ + "."@ + ext_of(mime)
            &&& opt_view(p.caption) == opt_view(image.caption)
            &&& p.created_at == (match image.date_created {
                Some(t) => rfc3339_utc(t@)->0,
                None => now,
            })
            &&& p.checksum@ == md5_hex(image.photo_guid@ + ":"@ + url)
            &&& p.url@ == url
            &&& p.width == dim(d.width)
            &&& p.height == dim(d.height)
            &&& p.mime_type@ == mime
        },
        None => false,
    }
}

/// An image record converts exactly when a derivative can be chosen and
/// its date, if any, parses.
pub open spec fn convertible(image: RemoteImage) -> bool {
    chosen(image.derivatives@) is Some && (image.date_created matches Some(t) ==> rfc3339_utc(t@) is Some)
}

/// Converts an image record into a remote photo; `now` stands in for a
/// missing creation date.
pub fn convert_image(image: &RemoteImage, now: DateTime) -> (r: Result<Photo, ICloudError>)
    ensures
        convertible(*image) <==> r is Ok,
        r matches Ok(p) ==> photo_of(*image, now, p),
{
    let (url, width, height, mime_type) = match find_best_derivative(image) {
        Ok(t) => t,
        Err(e) => return Err(e),
    };
    let created_at = match &image.date_created {
        Some(t) => match parse_photo_date(t.as_str()) {
            Ok(d) => d,
            Err(e) => return Err(e),
        },
        None => now,
    };
    let checksum = generate_photo_checksum(image.photo_guid.as_str(), url.as_str());
    let mut filename = image.photo_guid.as_str().to_owned();
    filename.append(".");
    filename.append(extension_for(mime_type.as_str()));
    let caption = match &image.caption {
        Some(c) => Some(c.clone()),
        None => None,
    };
    Ok(Photo {
        guid: image.photo_guid.clone(),
        filename,
        caption,
        created_at,
        checksum,
        url,
        width,
        height,
        mime_type,
    })
}

/// `after` is `before` with the photo of the image record put under its
/// guid.
pub open spec fn placed(before: Album, after: Album, image: RemoteImage, now: DateTime) -> bool {
    after.name == before.name && exists|p: Photo|
        #[trigger] photo_of(image, now, p) && ((exists|i: int|
            0 <= i < before.photos.len() && before.photos@[i].guid@ == p.guid@
                && after.photos@ == before.photos@.update(i, p)) || (!has_guid(before.photos@, p.guid@)
            && after.photos@ == before.photos@.push(p)))
}

/// Converts an image record and puts it into the album under its guid.
pub fn process_photo(album: &mut Album, photo: &RemoteImage, now: DateTime) -> (r: Result<(), ICloudError>)
    requires
        old(album).wf(),
    ensures
        final(album).wf(),
        convertible(*photo) <==> r is Ok,
        r is Err ==> *final(album) == *old(album),
        r is Ok ==> placed(*old(album), *final(album), *photo, now),
{
    match convert_image(photo, now) {
        Ok(p) => {
            album.insert_photo(p);
            Ok(())
        },
        Err(e) => Err(e),
    }
}

#[verifier::external_type_specification]
#[verifier::external_body]
pub struct ExUrl(url::Url);

#[verifier::external_type_specification]
#[verifier::external_body]
pub struct ExParseError(url::ParseError);

/// Relies on url's `Url::parse`; nothing is assumed of its outcome.
pub assume_specification[ url::Url::parse ](input: &str) -> Result<url::Url, url::ParseError>;

/// Relies on url's `Url::fragment`; nothing is assumed of its outcome.
pub assume_specification[ url::Url::fragment ](u: &url::Url) -> Option<&str>;

/// Relies on url's `Url::path_segments`: the segments of the path, or
/// nothing for a URL that cannot be a base. Nothing is assumed of them.
#[verifier::external_body]
fn path_segments(u: &url::Url) -> Option<Vec<String>> {
    u.path_segments().map(|it| it.map(|x| x.to_string()).collect())
}

/// Relies on url's `ParseError` display text; nothing is assumed of it.
#[verifier::external_body]
fn parse_error_text(e: &url::ParseError) -> String {
    e.to_string()
}

/// Position `i` ends the text before its first `?` (the end when there is none).
pub open spec fn query_cut(f: Seq<char>, i: int) -> bool {
    0 <= i <= f.len() && (forall|j: int| 0 <= j < i ==> f[j] != '?') && (i == f.len() || f[i] == '?')
}

fn cut_at_query(f: &str) -> (r: String)
    ensures
        exists|i: int| #[trigger] query_cut(f@, i) && r@ == f@.subrange(0, i),
{
    let n = f.unicode_len();
    let mut i: usize = 0;
    while i < n && f.get_char(i) != '?'
        invariant
            n == f@.len(),
            i <= n,
            forall|j: int| 0 <= j < i ==> f@[j] != '?',
        decreases n - i,
    {
        i = i + 1;
    }
    let r = f.substring_char(0, i).to_owned();
    assert(r@ == f@.subrange(0, i as int));
    assert(i == f@.len() || f@[i as int] == '?');
    assert(query_cut(f@, i as int));
    r
}

/// The token of a standard album URL's fragment: the part before any query,
/// which must start with `B`.
pub fn token_from_fragment(fragment: Option<&str>) -> (r: Result<String, ICloudError>)
    ensures
        match fragment {
            Some(f) => exists|i: int|
                #[trigger] query_cut(f@, i) && (if has_prefix(f@.subrange(0, i), "B"@) {
                    r matches Ok(t) && t@ == f@.subrange(0, i)
                } else {
                    r matches Err(ICloudError::InvalidToken(m)) && m@ == "Missing or invalid token in fragment"@
                }),
            None => r matches Err(ICloudError::InvalidToken(m)) && m@ == "Missing or invalid token in fragment"@,
        },
{
    match fragment {
        Some(f) => {
            let part = cut_at_query(f);
            let ghost i = choose|i: int| #[trigger] query_cut(f@, i) && part@ == f@.subrange(0, i);
            if starts_with(part.as_str(), "B") {
                Ok(part)
            } else {
                Err(ICloudError::InvalidToken("Missing or invalid token in fragment".to_owned()))
            }
        },
        None => Err(ICloudError::InvalidToken("Missing or invalid token in fragment".to_owned())),
    }
}

/// The token of an invitation URL: the path segment after `photos`.
pub fn token_from_segments(segments: Option<Vec<String>>) -> (r: Result<String, ICloudError>)
    ensures
        match segments {
            Some(s) => if s@.len() >= 2 && s@[0]@ == "photos"@ {
                r == Ok::<String, ICloudError>(s@[1])
            } else {
                r matches Err(ICloudError::InvalidToken(m)) && m@ == "Unable to extract token from invitation URL path"@
            },
            None => r matches Err(ICloudError::InvalidUrl(m)) && m@ == "Invalid URL path: cannot be base"@,
        },
{
    match segments {
        Some(mut s) => {
            if s.len() >= 2 && str_eq(s[0].as_str(), "photos") {
                let ghost t = s@[1];
                let token = s.remove(1);
                Ok(token)
            } else {
                Err(ICloudError::InvalidToken("Unable to extract token from invitation URL path".to_owned()))
            }
        },
        None => Err(ICloudError::InvalidUrl("Invalid URL path: cannot be base".to_owned())),
    }
}

/// Extracts the access token of a shared-album URL.
pub fn extract_token(album_url: &str) -> (r: Result<String, ICloudError>)
    ensures
        url_format_of(album_url@) == ICloudUrlFormat::Unknown ==> (r matches Err(ICloudError::InvalidUrl(m)) && m@
            == "Unsupported iCloud URL format: "@ + album_url@),
{
    match determine_url_format(album_url) {
        ICloudUrlFormat::Standard | ICloudUrlFormat::WebWithParams => match url::Url::parse(album_url) {
            Ok(u) => token_from_fragment(u.fragment()),
            Err(e) => {
                let mut c = String::from_str("Invalid iCloud shared album URL: ");
                c.append(album_url);
                Err(ICloudError::with_context(parse_error_text(&e), c))
            },
        },
        ICloudUrlFormat::Invitation => match url::Url::parse(album_url) {
            Ok(u) => token_from_segments(path_segments(&u)),
            Err(e) => {
                let mut c = String::from_str("Invalid iCloud shared album invitation URL: ");
                c.append(album_url);
                Err(ICloudError::with_context(parse_error_text(&e), c))
            },
        },
        ICloudUrlFormat::Unknown => {
            let mut m = String::from_str("Unsupported iCloud URL format: ");
            m.append(album_url);
            Err(ICloudError::InvalidUrl(m))
        },
    }
}

/// Where an album comes from.
pub enum AlbumSource {
    /// The built-in sample album, for test and example URLs.
    Mock,
    /// The album service, with this access token.
    Remote(String),
}

pub open spec fn is_sample_url(u: Seq<char>) -> bool {
    contains_seq(u, "#test"@) || contains_seq(u, "#custom"@) || contains_seq(u, "#example"@)
}

pub open spec fn looks_like_album_url(u: Seq<char>) -> bool {
    contains_seq(u, "icloud.com/sharedalbum"@) || contains_seq(u, "share.icloud.com/photos"@)
}

/// Decides where the album of a URL comes from: sample URLs use the
/// built-in album; other URLs must look like shared-album URLs and carry a
/// token.
pub fn album_source(album_url: &str) -> (r: Result<AlbumSource, ICloudError>)
    ensures
        is_sample_url(album_url@) ==> r matches Ok(AlbumSource::Mock),
        !is_sample_url(album_url@) && !looks_like_album_url(album_url@) ==> (r matches Err(
            ICloudError::InvalidUrl(m),
        ) && m@ == "URL doesn't appear to be an iCloud shared album"@),
        !is_sample_url(album_url@) && looks_like_album_url(album_url@) ==> (r matches Ok(AlbumSource::Remote(_))
            || r matches Err(ICloudError::InvalidToken(_))),
{
    if contains_str(album_url, "#test") || contains_str(album_url, "#custom") || contains_str(album_url, "#example") {
        return Ok(AlbumSource::Mock);
    }
    if !contains_str(album_url, "icloud.com/sharedalbum") && !contains_str(album_url, "share.icloud.com/photos") {
        return Err(ICloudError::InvalidUrl("URL doesn't appear to be an iCloud shared album".to_owned()));
    }
    match extract_token(album_url) {
        Ok(t) => Ok(AlbumSource::Remote(t)),
        Err(e) => Err(ICloudError::InvalidToken(e.to_string())),
    }
}

/// The first `n` characters of a text, or all of it.
fn prefix_chars(s: &str, n: usize) -> (r: String)
    ensures
        r@ == s@.subrange(0, if s@.len() < n { s@.len() as int } else { n as int }),
{
    let len = s.unicode_len();
    let k = if len < n { len } else { n };
    s.substring_char(0, k).to_owned()
}

/// The name of an album: its stream name, or `iCloud Album` and the first
/// eight characters of the token when the stream name is blank.
pub fn album_name(stream_name: &str, token: &str) -> (r: String)
    ensures
        r@ == (if trimmed(stream_name@).len() == 0 {
            "iCloud Album "@ + token@.subrange(0, if token@.len() < 8 { token@.len() as int } else { 8 })
        } else {
            stream_name@
        }),
{
    if is_blank(stream_name) {
        let mut n = String::from_str("iCloud Album ");
        let p = prefix_chars(token, 8);
        n.append(p.as_str());
        n
    } else {
        stream_name.to_owned()
    }
}

/// The photo comes from one of the image records.
pub open spec fn from_some_image(images: Seq<RemoteImage>, now: DateTime, p: Photo) -> bool {
    exists|i: int| 0 <= i < images.len() && #[trigger] photo_of(images[i], now, p)
}

/// Builds the album of a service response: each convertible image becomes
/// a photo, the others are skipped; when images were skipped and none
/// converted, the album is an error.
pub fn album_from_images(stream_name: &str, token: &str, images: &Vec<RemoteImage>, now: DateTime) -> (r:
    Result<Album, ICloudError>)
    ensures
        match r {
            Ok(a) => a.wf() && a.name@ == (if trimmed(stream_name@).len() == 0 {
                "iCloud Album "@ + token@.subrange(0, if token@.len() < 8 { token@.len() as int } else { 8 })
            } else {
                stream_name@
            }) && (forall|k: int| 0 <= k < a.photos.len() ==> #[trigger] from_some_image(images@, now, a.photos@[k])),
            Err(e) => e matches ICloudError::PhotoProcessingError(m) && m@ == "Failed to process any photos from the album"@
                && exists|i: int| 0 <= i < images@.len() && !convertible(#[trigger] images@[i]),
        },
{
    let mut album = Album::new(album_name(stream_name, token));
    let mut errors: usize = 0;
    let mut i: usize = 0;
    while i < images.len()
        invariant
            i <= images.len(),
            album.wf(),
            errors <= i,
            errors > 0 ==> exists|j: int| 0 <= j < i && !convertible(#[trigger] images@[j]),
            forall|k: int| 0 <= k < album.photos.len() ==> #[trigger] from_some_image(images@.subrange(0, i as int), now, album.photos@[k]),
            album.name@ == (if trimmed(stream_name@).len() == 0 {
                "iCloud Album "@ + token@.subrange(0, if token@.len() < 8 { token@.len() as int } else { 8 })
            } else {
                stream_name@
            }),
        decreases images.len() - i,
    {
        let ghost before = album;
        match process_photo(&mut album, &images[i], now) {
            Ok(()) => {
                assert(placed(before, album, images@[i as int], now));
                let ghost p = choose|p: Photo| #[trigger] photo_of(images@[i as int], now, p) && ((exists|q: int|
                    0 <= q < before.photos.len() && before.photos@[q].guid@ == p.guid@
                        && album.photos@ == before.photos@.update(q, p)) || (!has_guid(before.photos@, p.guid@)
                    && album.photos@ == before.photos@.push(p)));
                assert forall|k: int| 0 <= k < album.photos.len() implies #[trigger] from_some_image(images@.subrange(0, i + 1), now, album.photos@[k]) by {
                    if album.photos@[k] != p {
                        assert(album.photos@[k] == before.photos@[k]);
                        assert(from_some_image(images@.subrange(0, i as int), now, before.photos@[k]));
                        let j = choose|j: int| 0 <= j < i && #[trigger] photo_of(images@.subrange(0, i as int)[j], now, before.photos@[k]);
                        assert(images@.subrange(0, i + 1)[j] == images@.subrange(0, i as int)[j]);
                    } else {
                        assert(images@.subrange(0, i + 1)[i as int] == images@[i as int]);
                    }
                }
            },
            Err(_) => {
                errors = errors + 1;
                assert forall|k: int| 0 <= k < album.photos.len() implies #[trigger] from_some_image(images@.subrange(0, i + 1), now, album.photos@[k]) by {
                    assert(from_some_image(images@.subrange(0, i as int), now, album.photos@[k]));
                    let j = choose|j: int| 0 <= j < i && #[trigger] photo_of(images@.subrange(0, i as int)[j], now, album.photos@[k]);
                    assert(images@.subrange(0, i + 1)[j] == images@.subrange(0, i as int)[j]);
                }
            },
        }
        i = i + 1;
    }
    assert(images@.subrange(0, images@.len() as int) =~= images@);
    if album.photos.len() == 0 && errors > 0 {
        return Err(ICloudError::PhotoProcessingError("Failed to process any photos from the album".to_owned()));
    }
    proof {
        if album.photos.len() == 0 {
            assert(errors == 0);
        }
    }
    Ok(album)
}

} // verus!
