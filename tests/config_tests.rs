use icloudalbum2hugo::config::{
    default_enabled, Config, LegacyConfig, OutputConfig, OutputType, PrivacyConfig, DEFAULT_ALBUM_URL,
    DEFAULT_DATA_FILE, DEFAULT_OUT_DIR,
};

#[test]
fn test_default_config() {
    let config = Config::default();
    assert_eq!(config.fuzz_meters, Some(100));
    assert_eq!(config.outputs.len(), 1);
    let default_output = &config.outputs[0];
    assert!(matches!(default_output.output_type, OutputType::Photostream));
    assert_eq!(default_output.album_url, DEFAULT_ALBUM_URL);
    assert_eq!(default_output.out_dir, DEFAULT_OUT_DIR);
    assert_eq!(default_output.data_file, DEFAULT_DATA_FILE);
    assert!(default_output.enabled);
}

#[test]
fn test_enabled_outputs() {
    let mut config = Config::default();

    let mut second_output = OutputConfig::default();
    second_output.album_url = "https://example.com/album2".to_string();
    second_output.enabled = false;
    config.outputs.push(second_output);

    let mut third_output = OutputConfig::default();
    third_output.album_url = "https://example.com/album3".to_string();
    third_output.name = Some("Third Album".to_string());
    config.outputs.push(third_output);

    let enabled = config.enabled_outputs();
    assert_eq!(enabled.len(), 2);
    assert_eq!(enabled[0].album_url, DEFAULT_ALBUM_URL);
    assert_eq!(enabled[1].album_url, "https://example.com/album3");

    let named = config.get_outputs_by_name(&["Third Album".to_string()]);
    assert_eq!(named.len(), 1);
    assert_eq!(named[0].album_url, "https://example.com/album3");
}

#[test]
fn test_privacy_config_default() {
    let privacy = PrivacyConfig::default();

    assert!(!privacy.nofeed);
    assert!(!privacy.noindex);
    assert!(!privacy.uuid_slug);
    assert!(!privacy.unlisted);
    assert!(!privacy.robots_noindex);
}

#[test]
fn test_multi_output_configuration() {
    let mut config = Config::default();

    let gallery_output = OutputConfig {
        output_type: OutputType::Gallery,
        album_url: "https://example.com/gallery".to_string(),
        out_dir: "content/gallery".to_string(),
        data_file: "data/gallery.yaml".to_string(),
        name: Some("Test Gallery".to_string()),
        description: Some("Test Description".to_string()),
        ..Default::default()
    };

    config.outputs.push(gallery_output);
    assert_eq!(config.outputs.len(), 2);

    let enabled = config.enabled_outputs();
    assert_eq!(enabled.len(), 2);

    let filtered = config.get_outputs_by_name(&["Test Gallery".to_string()]);
    assert_eq!(filtered.len(), 1);
    assert!(matches!(filtered[0].output_type, OutputType::Gallery));

    config.outputs[0].enabled = false;

    let enabled = config.enabled_outputs();
    assert_eq!(enabled.len(), 1);
    assert!(matches!(enabled[0].output_type, OutputType::Gallery));
}

#[test]
fn legacy_configuration_becomes_one_output() {
    let raw = "album_url: https://www.icloud.com/sharedalbum/legacy_token\nout_dir: content/legacy\ndata_file: data/legacy.yaml\nfuzz_meters: 50.0\n";
    let legacy = LegacyConfig {
        album_url: "https://www.icloud.com/sharedalbum/legacy_token".to_string(),
        out_dir: "content/legacy".to_string(),
        data_file: "data/legacy.yaml".to_string(),
        fuzz_meters: Some(50),
    };
    let config = Config { fuzz_meters: None, outputs: Vec::new() }.resolve_loaded(raw, Some(legacy));
    assert_eq!(config.fuzz_meters, Some(50));
    assert_eq!(config.outputs.len(), 1);
    let output = &config.outputs[0];
    assert!(matches!(output.output_type, OutputType::Photostream));
    assert_eq!(output.album_url, "https://www.icloud.com/sharedalbum/legacy_token");
    assert_eq!(output.out_dir, "content/legacy");
    assert_eq!(output.data_file, "data/legacy.yaml");
    assert!(output.enabled);
}

#[test]
fn configuration_without_outputs_gets_the_default() {
    let config = Config { fuzz_meters: Some(7), outputs: Vec::new() }.resolve_loaded("outputs: []\n", None);
    assert_eq!(config.outputs.len(), 1);
    assert_eq!(config.outputs[0].album_url, DEFAULT_ALBUM_URL);
    assert_eq!(config.fuzz_meters, Some(7));
    assert!(default_enabled());
    assert_eq!(Config::get_config_path(&None), "icloudalbums.yaml");
    assert_eq!(Config::get_config_path(&Some("x.yaml".to_string())), "x.yaml");
    assert!(config.get_outputs_by_name(&[]).len() == 1);
}
