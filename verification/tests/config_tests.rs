use plasmid::config::{
    ConfigReader, MemConfigReader, PlasmidConfig, config_from_source, load_config,
};
use plasmid::error::ConfigError;
use plasmid::path::FsPath;

fn p(segments: &[&str]) -> FsPath {
    FsPath::from_segments(segments.iter().map(|s| s.to_string()).collect())
}

#[test]
fn test_load_config_returns_default_config() {
    let reader = MemConfigReader::new();
    let Ok(config) = load_config(&p(&["nonexistent"]), &reader) else {
        panic!("Should return default config")
    };
    assert_eq!(PlasmidConfig::default(), config);
}

#[test]
fn test_load_config_returns_valid_config_from_toml() {
    let toml_content = r#"
        ignore = [
            "target",
            "node_modules",
        ]

        [[packages]]
        name = "serde"
        manager = "cargo"

        [[packages]]
        name = "ripgrep"
        manager = "brew"

        [profiles.dev]
        [[profiles.dev.packages]]
        name = "clippy"
        manager = "cargo"

        [profiles.dev.variables]
        RUST_LOG = "debug"
        OPT_LEVEL = "0"
        "#;

    let path = p(&["plasmid.toml"]);
    let mut reader = MemConfigReader::new();
    reader.add_file(path.clone(), toml_content.to_string());

    let result = load_config(&path, &reader);
    assert!(result.is_ok(), "Failed to parse valid TOML: {:?}", result.err());

    let Ok(config) = result else { panic!("Should return valid config") };

    assert!(config.ignore.contains(&"target".to_string()));
    assert_eq!(config.packages[0].name, "serde");
    assert_eq!(config.packages[0].manager.as_deref(), Some("cargo"));
    assert_eq!(config.packages[1].name, "ripgrep");

    let dev = config
        .profiles
        .iter()
        .find(|(name, _)| name == "dev")
        .map(|(_, profile)| profile)
        .expect("missing profile");
    assert_eq!(dev.packages[0].name, "clippy");
    assert!(dev.variables.contains(&("RUST_LOG".to_string(), "debug".to_string())));
}

#[test]
fn test_load_config_returns_error() {
    let path = p(&["test.toml"]);
    let mut reader = MemConfigReader::new();
    reader.add_file(path.clone(), "".to_string());

    let result = load_config(&path, &reader);
    assert!(result.is_err());

    let Err(config_error) = result else { panic!("Should crash on TomlParseError") };
    assert!(matches!(config_error, ConfigError::TomlParseError { .. }));
}

#[test]
fn test_config_from_missing_source_is_default() {
    let config = config_from_source(&p(&["anywhere"]), None).unwrap();
    assert_eq!(config.ignore, vec![".gitignore".to_string()]);
    assert!(config.packages.is_empty());
    assert!(config.profiles.is_empty());
}

#[test]
fn test_config_from_malformed_document_is_parse_error() {
    let result = config_from_source(&p(&["bad.toml"]), Some(&"[[[not toml".to_string()));
    assert!(matches!(result, Err(ConfigError::TomlParseError { .. })));
}

#[test]
fn test_config_with_missing_field_is_parse_error() {
    let text = "ignore = [\"target\"]\npackages = []\n".to_string();
    let result = config_from_source(&p(&["partial.toml"]), Some(&text));
    assert!(matches!(result, Err(ConfigError::TomlParseError { .. })));
}

#[test]
fn test_config_with_wrongly_typed_field_is_parse_error() {
    let text = "ignore = [1, 2]\npackages = []\n\n[profiles]\n".to_string();
    let result = config_from_source(&p(&["typed.toml"]), Some(&text));
    assert!(matches!(result, Err(ConfigError::TomlParseError { .. })));
}

#[test]
fn test_config_minimal_document_parses() {
    let text = "ignore = []\npackages = []\n\n[profiles]\n".to_string();
    let config = config_from_source(&p(&["minimal.toml"]), Some(&text)).unwrap();
    assert!(config.ignore.is_empty());
    assert!(config.packages.is_empty());
    assert!(config.profiles.is_empty());
}

struct FailingReader;

impl ConfigReader for FailingReader {
    fn read_file(&self, _path: &FsPath) -> Result<Option<String>, ConfigError> {
        Err(ConfigError::IoError { message: "permission denied".to_string() })
    }
}

#[test]
fn test_reader_error_aborts_the_load() {
    let result = load_config(&p(&["locked.toml"]), &FailingReader);
    assert!(matches!(result, Err(ConfigError::IoError { .. })));
}
