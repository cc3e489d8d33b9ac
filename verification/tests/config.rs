use requim::config::{Config, ConfigError};

#[test]
fn parse_config_reads_data_dir() {
    let config = Config::parse("data_dir = \"/custom/path\"\n").expect("Deserialization failure");

    assert_eq!(config.data_dir, "/custom/path");
}

#[test]
fn parse_config_reads_escaped_data_dir() {
    let config =
        Config::parse("data_dir = \"C:\\\\Data\"\n").expect("Deserialization failure");

    assert_eq!(config.data_dir, "C:\\Data");
}

#[test]
fn parse_config_rejects_garbage() {
    let err = Config::parse("nothing here").expect_err("Did not fail");

    assert!(matches!(err, ConfigError::DeserializationError(_)));
}

#[test]
fn parse_config_rejects_trailing_text() {
    let err = Config::parse("data_dir = \"/custom/path\"\nextra").expect_err("Did not fail");

    assert!(matches!(err, ConfigError::DeserializationError(_)));
}

#[test]
fn absent_config_falls_back_to_default() {
    let config =
        Config::from_document(None, "/default/data".to_string()).expect("Fallback failure");

    assert_eq!(config.data_dir, "/default/data");
}

#[test]
fn present_config_overrides_default() {
    let config = Config::from_document(
        Some("data_dir = \"/custom/path\"\n"),
        "/default/data".to_string(),
    )
    .expect("Deserialization failure");

    assert_eq!(config.data_dir, "/custom/path");
}

#[test]
fn no_path_message() {
    assert_eq!(
        ConfigError::NoPath.message(),
        "failed to get config directory path"
    );
}

#[test]
fn deserialization_message_holds_cause() {
    let err = ConfigError::DeserializationError("bad entry".to_string());

    assert_eq!(err.message(), "failed to deserialize config (bad entry)");
}
