use relay::config::{file_extension, parse, ConfigError, ConfigFormat};

#[test]
fn file_extension_takes_what_follows_the_last_dot() {
    assert_eq!(file_extension("settings.json"), "json");
    assert_eq!(file_extension("archive.tar.gz"), "gz");
    assert_eq!(file_extension("trailing."), "");
    assert_eq!(file_extension(".bashrc"), "bashrc");
}

#[test]
fn file_extension_of_a_dotless_path_is_the_path() {
    assert_eq!(file_extension("nodot"), "nodot");
    assert_eq!(file_extension(""), "");
}

#[test]
fn parse_dispatches_on_the_extension() {
    assert_eq!(parse("app.json"), Ok(ConfigFormat::Json));
    assert_eq!(parse("app.yaml"), Ok(ConfigFormat::Yaml));
    assert_eq!(parse("app.toml"), Ok(ConfigFormat::Toml));
}

#[test]
fn parse_rejects_unknown_extensions() {
    assert_eq!(parse("app.ini"), Err(ConfigError::UnknownExtension));
    assert_eq!(parse("app"), Err(ConfigError::UnknownExtension));
    assert_eq!(parse(""), Err(ConfigError::UnknownExtension));
}
