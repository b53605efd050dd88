//! Sync targets: which album goes where, in which output shape, with which
//! privacy options; and the selection and upgrade rules over them.

use vstd::prelude::*;
use crate::model::views;
use crate::text::{contains_seq, contains_str, str_eq};

verus! {

/// One page bundle per photo, or one bundle for the whole album.
#[derive(Clone, Copy, Debug, PartialEq, Eq)]
pub enum OutputType {
    Photostream,
    Gallery,
}

impl Default for OutputType {
    fn default() -> (r: OutputType)
        ensures
            r == OutputType::Photostream,
    {
        OutputType::Photostream
    }
}

/// Options that the gallery page's frontmatter emits when set.
#[derive(Clone, Copy, Debug, PartialEq, Eq)]
pub struct PrivacyConfig {
    /// Keep the page out of feeds.
    pub nofeed: bool,
    /// Keep the page out of the search index.
    pub noindex: bool,
    /// Use the gallery's opaque uuid as its slug.
    pub uuid_slug: bool,
    /// Leave the page out of listings.
    pub unlisted: bool,
    /// Ask robots not to index or follow.
    pub robots_noindex: bool,
}

impl Default for PrivacyConfig {
    fn default() -> (r: PrivacyConfig)
        ensures
            !r.nofeed && !r.noindex && !r.uuid_slug && !r.unlisted && !r.robots_noindex,
    {
        PrivacyConfig { nofeed: false, noindex: false, uuid_slug: false, unlisted: false, robots_noindex: false }
    }
}

pub const DEFAULT_ALBUM_URL: &'static str = "https://www.icloud.com/sharedalbum/ALBUM_TOKEN_GOES_HERE";
pub const DEFAULT_OUT_DIR: &'static str = "content/photostream";
pub const DEFAULT_DATA_FILE: &'static str = "data/photos/index.yaml";
pub const DEFAULT_CONFIG_FILE: &'static str = "icloudalbums.yaml";
/// Default radius, in meters, of the privacy offset applied to coordinates.
pub const DEFAULT_FUZZ_METERS: u32 = 100;

/// One sync target.
#[derive(Clone, Debug)]
pub struct OutputConfig {
    pub output_type: OutputType,
    pub album_url: String,
    pub out_dir: String,
    pub data_file: String,
    /// The target's name; the album's name is used when absent.
    pub name: Option<String>,
    pub description: Option<String>,
    pub enabled: bool,
    pub privacy: PrivacyConfig,
}

/// A target is enabled unless it says otherwise.
pub fn default_enabled() -> (r: bool)
    ensures
        r,
{
    true
}

pub open spec fn is_default_output(o: OutputConfig) -> bool {
    &&& o.output_type == OutputType::Photostream
    &&& o.album_url@ == DEFAULT_ALBUM_URL@
    &&& o.out_dir@ == DEFAULT_OUT_DIR@
    &&& o.data_file@ == DEFAULT_DATA_FILE@
    &&& o.name is None
    &&& o.description is None
    &&& o.enabled
    &&& o.privacy == PrivacyConfig { nofeed: false, noindex: false, uuid_slug: false, unlisted: false, robots_noindex: false }
}

impl Default for OutputConfig {
    fn default() -> (r: OutputConfig)
        ensures
            is_default_output(r),
    {
        OutputConfig {
            output_type: OutputType::Photostream,
            album_url: DEFAULT_ALBUM_URL.to_owned(),
            out_dir: DEFAULT_OUT_DIR.to_owned(),
            data_file: DEFAULT_DATA_FILE.to_owned(),
            name: None,
            description: None,
            enabled: true,
            privacy: PrivacyConfig::default(),
        }
    }
}

/// The fields of the older single-target configuration.
#[derive(Clone, Debug)]
pub struct LegacyConfig {
    pub album_url: String,
    pub out_dir: String,
    pub data_file: String,
    pub fuzz_meters: Option<u32>,
}

/// The whole configuration: the privacy radius and the targets.
#[derive(Clone, Debug)]
pub struct Config {
    /// Radius of the privacy offset, in meters.
    pub fuzz_meters: Option<u32>,
    pub outputs: Vec<OutputConfig>,
}

/// The enabled targets, in order.
pub open spec fn enabled_of(os: Seq<OutputConfig>) -> Seq<OutputConfig>
    decreases os.len(),
{
    if os.len() == 0 {
        Seq::empty()
    } else if os.last().enabled {
        enabled_of(os.drop_last()).push(os.last())
    } else {
        enabled_of(os.drop_last())
    }
}

/// The enabled targets whose name is one of `names`, in order.
pub open spec fn named_of(os: Seq<OutputConfig>, names: Seq<Seq<char>>) -> Seq<OutputConfig>
    decreases os.len(),
{
    if os.len() == 0 {
        Seq::empty()
    } else if os.last().enabled && (os.last().name matches Some(n) && names.contains(n@)) {
        named_of(os.drop_last(), names).push(os.last())
    } else {
        named_of(os.drop_last(), names)
    }
}

pub open spec fn deref_outputs(v: Seq<&OutputConfig>) -> Seq<OutputConfig> {
    v.map_values(|o: &OutputConfig| *o)
}

/// A target built from the older configuration's fields.
pub open spec fn from_legacy(o: OutputConfig, l: LegacyConfig) -> bool {
    &&& o.output_type == OutputType::Photostream
    &&& o.album_url == l.album_url
    &&& o.out_dir == l.out_dir
    &&& o.data_file == l.data_file
    &&& o.name is None
    &&& o.description is None
    &&& o.enabled
    &&& o.privacy == PrivacyConfig { nofeed: false, noindex: false, uuid_slug: false, unlisted: false, robots_noindex: false }
}

impl Default for Config {
    fn default() -> (r: Config)
        ensures
            r.fuzz_meters == Some(DEFAULT_FUZZ_METERS),
            r.outputs@.len() == 1,
            is_default_output(r.outputs@[0]),
    {
        let mut outputs = Vec::new();
        outputs.push(OutputConfig::default());
        Config { fuzz_meters: Some(DEFAULT_FUZZ_METERS), outputs }
    }
}

impl Config {
    /// The configuration file to use: the given one, else the default.
    pub fn get_config_path(config_arg: &Option<String>) -> (r: String)
        ensures
            r@ == (match *config_arg {
                Some(p) => p@,
                None => DEFAULT_CONFIG_FILE@,
            }),
    {
        match config_arg {
            Some(p) => p.as_str().to_owned(),
            None => DEFAULT_CONFIG_FILE.to_owned(),
        }
    }

    /// The enabled targets, in order.
    pub fn enabled_outputs(&self) -> (r: Vec<&OutputConfig>)
        ensures
            deref_outputs(r@) == enabled_of(self.outputs@),
    {
        let mut r: Vec<&OutputConfig> = Vec::new();
        let mut i: usize = 0;
        while i < self.outputs.len()
            invariant
                i <= self.outputs.len(),
                deref_outputs(r@) == enabled_of(self.outputs@.subrange(0, i as int)),
            decreases self.outputs.len() - i,
        {
            assert(self.outputs@.subrange(0, i + 1).drop_last() =~= self.outputs@.subrange(0, i as int));
            let ghost before = r@;
            if self.outputs[i].enabled {
                r.push(&self.outputs[i]);
                assert(deref_outputs(r@) =~= deref_outputs(before).push(self.outputs@[i as int]));
            }
            i = i + 1;
        }
        assert(self.outputs@.subrange(0, self.outputs@.len() as int) =~= self.outputs@);
        r
    }

    /// The enabled targets named in `names`; all enabled targets when no
    /// name is given.
    pub fn get_outputs_by_name(&self, names: &[String]) -> (r: Vec<&OutputConfig>)
        ensures
            names@.len() == 0 ==> deref_outputs(r@) == enabled_of(self.outputs@),
            names@.len() > 0 ==> deref_outputs(r@) == named_of(self.outputs@, views(names@)),
    {
        if names.len() == 0 {
            return self.enabled_outputs();
        }
        let mut r: Vec<&OutputConfig> = Vec::new();
        let mut i: usize = 0;
        while i < self.outputs.len()
            invariant
                i <= self.outputs.len(),
                deref_outputs(r@) == named_of(self.outputs@.subrange(0, i as int), views(names@)),
            decreases self.outputs.len() - i,
        {
            assert(self.outputs@.subrange(0, i + 1).drop_last() =~= self.outputs@.subrange(0, i as int));
            let ghost before = r@;
            let o = &self.outputs[i];
            if o.enabled {
                match &o.name {
                    Some(n) => {
                        if name_listed(names, n.as_str()) {
                            r.push(o);
                            assert(deref_outputs(r@) =~= deref_outputs(before).push(self.outputs@[i as int]));
                        }
                    },
                    None => {},
                }
            }
            i = i + 1;
        }
        assert(self.outputs@.subrange(0, self.outputs@.len() as int) =~= self.outputs@);
        r
    }

    /// The configuration as loaded from `raw`: a file of the older shape
    /// (no targets, but an `album_url`) becomes one photostream target, and a
    /// configuration without targets gets the default one.
    pub fn resolve_loaded(self, raw: &str, legacy: Option<LegacyConfig>) -> (r: Config)
        ensures
            ({
                let upgrade = self.outputs@.len() == 0 && contains_seq(raw@, "album_url"@) && legacy is Some;
                &&& upgrade ==> r.fuzz_meters == legacy->0.fuzz_meters && r.outputs@.len() == 1 && from_legacy(r.outputs@[0], legacy->0)
                &&& !upgrade && self.outputs@.len() == 0 ==> r.fuzz_meters == self.fuzz_meters && r.outputs@.len() == 1 && is_default_output(r.outputs@[0])
                &&& self.outputs@.len() > 0 ==> r.fuzz_meters == self.fuzz_meters && r.outputs == self.outputs
            }),
    {
        if self.outputs.len() > 0 {
            return self;
        }
        let mut outputs: Vec<OutputConfig> = Vec::new();
        if contains_str(raw, "album_url") {
            match legacy {
                Some(l) => {
                    let fuzz = l.fuzz_meters;
                    outputs.push(OutputConfig {
                        output_type: OutputType::Photostream,
                        album_url: l.album_url,
                        out_dir: l.out_dir,
                        data_file: l.data_file,
                        name: None,
                        description: None,
                        enabled: true,
                        privacy: PrivacyConfig::default(),
                    });
                    return Config { fuzz_meters: fuzz, outputs };
                },
                None => {},
            }
        }
        outputs.push(OutputConfig::default());
        Config { fuzz_meters: self.fuzz_meters, outputs }
    }
}

fn name_listed(names: &[String], n: &str) -> (r: bool)
    ensures
        r == views(names@).contains(n@),
{
    let mut i: usize = 0;
    while i < names.len()
        invariant
            i <= names.len(),
            forall|j: int| 0 <= j < i ==> names@[j]@ != n@,
        decreases names.len() - i,
    {
        if str_eq(names[i].as_str(), n) {
            assert(views(names@)[i as int] == n@);
            return true;
        }
        i = i + 1;
    }
    false
}

} // verus!
