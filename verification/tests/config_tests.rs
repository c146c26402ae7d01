use ax_gpt::config::{
    after_default_written, default_sessions_depth, get_config, get_config_dir, get_config_filepath,
    validate_config, AxConfig, AxConfigError, ConfigLoad, ConfigStep,
};

fn config_with_key(key: &str) -> AxConfig {
    AxConfig {
        openai_api_key: key.to_string(),
        system_prompt: "sp".to_string(),
        model: "m".to_string(),
        sessions_depth: 2,
    }
}

#[test]
fn sessions_depth_defaults_to_four() {
    assert_eq!(default_sessions_depth(), 4);
}

#[test]
fn default_config_values() {
    let c = AxConfig::default();
    assert_eq!(c.openai_api_key, "OPENAI API KEY");
    assert_eq!(c.system_prompt, "You are a programmers assistant");
    assert_eq!(c.model, "gpt-3.5-turbo");
    assert_eq!(c.sessions_depth, 4);
}

#[test]
fn placeholder_key_is_missing_key() {
    assert!(matches!(validate_config(config_with_key("OPENAI API KEY")), Err(AxConfigError::MissingApiKey)));
}

#[test]
fn real_key_is_accepted_unchanged() {
    let c = validate_config(config_with_key("sk-123")).unwrap();
    assert_eq!(c, config_with_key("sk-123"));
}

#[test]
fn loaded_config_with_key_is_used() {
    match get_config(ConfigLoad::Loaded(Ok(config_with_key("sk-1")))) {
        ConfigStep::Finished(Ok(c)) => assert_eq!(c, config_with_key("sk-1")),
        _ => panic!("expected the loaded configuration"),
    }
}

#[test]
fn loaded_config_with_placeholder_is_refused() {
    assert!(matches!(
        get_config(ConfigLoad::Loaded(Ok(config_with_key("OPENAI API KEY")))),
        ConfigStep::Finished(Err(AxConfigError::MissingApiKey))
    ));
}

#[test]
fn undecodable_config_is_a_config_error() {
    let e = config::ConfigError::Message("missing field `openai_api_key`".to_string());
    match get_config(ConfigLoad::Loaded(Err(e))) {
        ConfigStep::Finished(Err(AxConfigError::ConfigError(config::ConfigError::Message(m)))) => {
            assert_eq!(m, "missing field `openai_api_key`")
        }
        _ => panic!("expected a configuration error"),
    }
}

#[test]
fn broken_config_file_is_a_config_error() {
    let e = config::ConfigError::Message("bad".to_string());
    assert!(matches!(
        get_config(ConfigLoad::Failed(e)),
        ConfigStep::Finished(Err(AxConfigError::ConfigError(_)))
    ));
}

#[test]
fn missing_config_file_writes_default() {
    match get_config(ConfigLoad::Unreadable) {
        ConfigStep::WriteDefault(c) => assert_eq!(c, AxConfig::default()),
        _ => panic!("expected the default to be written"),
    }
}

#[test]
fn written_default_reports_missing_key() {
    assert!(matches!(after_default_written(Ok(())), Err(AxConfigError::MissingApiKey)));
}

#[test]
fn failed_write_is_reported() {
    let e = std::io::Error::new(std::io::ErrorKind::PermissionDenied, "denied");
    match after_default_written(Err(e)) {
        Err(AxConfigError::FailedToWriteConfig(e)) => assert_eq!(e.kind(), std::io::ErrorKind::PermissionDenied),
        _ => panic!("expected the write failure"),
    }
}

#[test]
fn config_paths_under_home() {
    assert_eq!(get_config_dir("/home/me"), "/home/me/.config");
    assert_eq!(get_config_filepath("/home/me"), "/home/me/.config/ax_gpt.json");
}

#[test]
fn config_paths_for_any_home() {
    assert_eq!(get_config_dir("/"), "/.config");
    assert_eq!(get_config_filepath("/"), "/.config/ax_gpt.json");
    assert_eq!(get_config_dir("/home/me/"), "/home/me/.config");
    assert_eq!(get_config_dir(""), ".config");
    assert_eq!(get_config_filepath(""), ".config/ax_gpt.json");
}

#[test]
fn written_default_read_back_is_refused_again() {
    let default = AxConfig::default();
    assert!(matches!(
        get_config(ConfigLoad::Loaded(Ok(default))),
        ConfigStep::Finished(Err(AxConfigError::MissingApiKey))
    ));
}
