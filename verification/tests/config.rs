use keymastro::config::{config_format, Config, ConfigFormat, KeyPress, Mapping};
use keymastro::error::ConfigError;
use keymastro::text::{has_suffix, same_text};

fn press(key: &str) -> KeyPress {
    KeyPress { key: key.to_string(), delay: None, direction: None }
}

#[test]
fn same_text_compares_characters() {
    assert!(same_text("", ""));
    assert!(same_text("Alt", "Alt"));
    assert!(!same_text("Alt", "alt"));
    assert!(!same_text("Alt", "Al"));
    assert!(!same_text("Al", "Alt"));
    assert!(same_text("héllo", "héllo"));
    assert!(!same_text("héllo", "hello"));
}

#[test]
fn suffix_of_a_text() {
    assert!(has_suffix("a.json", ".json"));
    assert!(has_suffix(".json", ".json"));
    assert!(has_suffix("anything", ""));
    assert!(has_suffix("", ""));
    assert!(!has_suffix("json", ".json"));
    assert!(!has_suffix("a.json5", ".json"));
    assert!(!has_suffix("", "x"));
    assert!(has_suffix("é.yml", ".yml"));
    assert!(!has_suffix("a.jsön", ".json"));
}

#[test]
fn format_follows_the_extension() {
    assert_eq!(config_format("keys.json"), Ok(ConfigFormat::Json));
    assert_eq!(config_format("keys.yaml"), Ok(ConfigFormat::Yaml));
    assert_eq!(config_format("keys.yml"), Ok(ConfigFormat::Yaml));
    assert_eq!(config_format("/etc/remap/a.b.json"), Ok(ConfigFormat::Json));
    assert_eq!(config_format(".json"), Ok(ConfigFormat::Json));
    assert_eq!(config_format("keys.json.yml"), Ok(ConfigFormat::Yaml));
}

#[test]
fn other_extension_is_refused() {
    assert_eq!(config_format("keys.toml"), Err(ConfigError::UnsupportedFormat));
    assert_eq!(config_format("keys"), Err(ConfigError::UnsupportedFormat));
    assert_eq!(config_format(""), Err(ConfigError::UnsupportedFormat));
    assert_eq!(config_format("json"), Err(ConfigError::UnsupportedFormat));
    assert_eq!(config_format("keys.JSON"), Err(ConfigError::UnsupportedFormat));
    assert_eq!(config_format("keys.json "), Err(ConfigError::UnsupportedFormat));
}

#[test]
fn new_configuration_is_empty() {
    let config = Config::new(Some(7));
    assert_eq!(config.global_delay(), Some(7));
    assert!(config.mappings().is_empty());
    assert_eq!(Config::new(None).global_delay(), None);
}

#[test]
fn new_trigger_goes_to_the_end() {
    let mut config = Config::new(None);
    config = config.with_mapping("A".to_string(), vec![press("B")]);
    config = config.with_mapping("C".to_string(), vec![press("D"), press("E")]);
    assert_eq!(
        config.mappings(),
        &vec![
            Mapping { trigger: "A".to_string(), steps: vec![press("B")] },
            Mapping { trigger: "C".to_string(), steps: vec![press("D"), press("E")] },
        ]
    );
    assert_eq!(config.position("A"), Some(0));
    assert_eq!(config.position("C"), Some(1));
    assert_eq!(config.position("B"), None);
}

#[test]
fn known_trigger_gets_the_new_steps() {
    let mut config = Config::new(Some(1));
    config = config.with_mapping("A".to_string(), vec![press("B")]);
    config = config.with_mapping("C".to_string(), vec![press("D")]);
    config = config.with_mapping("A".to_string(), vec![press("X"), press("Y")]);
    assert_eq!(
        config.mappings(),
        &vec![
            Mapping { trigger: "A".to_string(), steps: vec![press("X"), press("Y")] },
            Mapping { trigger: "C".to_string(), steps: vec![press("D")] },
        ]
    );
    assert_eq!(config.global_delay(), Some(1));
}

#[test]
fn messages_of_the_errors() {
    assert_eq!(
        ConfigError::UnsupportedSymbol("Foo".to_string()).message(),
        "Unsupported key: Foo"
    );
    assert_eq!(
        ConfigError::UnsupportedFormat.message(),
        "Unsupported config file format. Use JSON or YAML."
    );
    assert_eq!(ConfigError::DelayOverflow.message(), "Delay too large");
    assert_eq!(ConfigError::unsupported("q"), ConfigError::UnsupportedSymbol("q".to_string()));
}
