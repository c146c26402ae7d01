use vstd::prelude::*;

use crate::text::{join_path, path_join};

verus! {

/// `std::io::Error`: why a file could not be written, carried through unread.
#[verifier::external_type_specification]
#[verifier::external_body]
pub struct ExIoError(std::io::Error);

/// `config::ConfigError`: why the configuration could not be read, carried
/// through unread.
#[verifier::external_type_specification]
#[verifier::external_body]
pub struct ExConfigError(config::ConfigError);

/// The key that a freshly written configuration file holds in place of a
/// real one.
pub const API_KEY_PLACEHOLDER: &'static str = "OPENAI API KEY";

/// The system prompt used when the configuration names none.
pub const DEFAULT_SYSTEM_PROMPT: &'static str = "You are a programmers assistant";

/// The model used when the configuration names none.
pub const DEFAULT_MODEL: &'static str = "gpt-3.5-turbo";

/// The name of the configuration file in the configuration directory.
pub const CONFIG_FILE_NAME: &'static str = "ax_gpt.json";

/// Why no usable configuration could be had.
#[derive(Debug)]
pub enum AxConfigError {
    MissingApiKey,
    FailedToWriteConfig(std::io::Error),
    ConfigError(config::ConfigError),
}

/// The settings of the client.
#[derive(Debug, PartialEq, Eq)]
pub struct AxConfig {
    pub openai_api_key: String,
    pub system_prompt: String,
    pub model: String,
    pub sessions_depth: usize,
}

/// How many past messages a session keeps when the configuration does not
/// say.
pub fn default_sessions_depth() -> (depth: usize)
    ensures
        depth == 4,
{
    4
}

/// The configuration written to a new configuration file.
pub open spec fn is_default_config(config: AxConfig) -> bool {
    &&& config.openai_api_key@ == API_KEY_PLACEHOLDER@
    &&& config.system_prompt@ == DEFAULT_SYSTEM_PROMPT@
    &&& config.model@ == DEFAULT_MODEL@
    &&& config.sessions_depth == 4
}

impl Default for AxConfig {
    fn default() -> (config: AxConfig)
        ensures
            is_default_config(config),
    {
        AxConfig {
            openai_api_key: String::from_str(API_KEY_PLACEHOLDER),
            system_prompt: String::from_str(DEFAULT_SYSTEM_PROMPT),
            model: String::from_str(DEFAULT_MODEL),
            sessions_depth: default_sessions_depth(),
        }
    }
}

/// Accepts a configuration unless its key is still the placeholder.
pub fn validate_config(config: AxConfig) -> (result: Result<AxConfig, AxConfigError>)
    ensures
        config.openai_api_key@ == API_KEY_PLACEHOLDER@ ==> result matches Err(AxConfigError::MissingApiKey),
        config.openai_api_key@ != API_KEY_PLACEHOLDER@ ==> result == Ok::<AxConfig, AxConfigError>(config),
{
    let placeholder = String::from_str(API_KEY_PLACEHOLDER);
    if config.openai_api_key == placeholder {
        Err(AxConfigError::MissingApiKey)
    } else {
        Ok(config)
    }
}

/// What reading the configuration file gave.
pub enum ConfigLoad {
    /// The file was read; what turning its settings into a configuration gave.
    Loaded(Result<AxConfig, config::ConfigError>),
    /// There is no readable configuration file.
    Unreadable,
    /// The file was found but could not be read as a configuration.
    Failed(config::ConfigError),
}

/// What to do after reading the configuration file.
pub enum ConfigStep {
    /// Done: the configuration to use, or why there is none.
    Finished(Result<AxConfig, AxConfigError>),
    /// Write this configuration to a new configuration file, then go on with
    /// `after_default_written`.
    WriteDefault(AxConfig),
}

/// What reading the configuration file leads to: a configuration with a
/// real key is used, one with the placeholder key is refused, a broken file
/// is reported, and only a missing file has the default written.
pub open spec fn config_step_follows(load: ConfigLoad, step: ConfigStep) -> bool {
    match load {
        ConfigLoad::Loaded(Ok(config)) => if config.openai_api_key@ == API_KEY_PLACEHOLDER@ {
            step matches ConfigStep::Finished(Err(AxConfigError::MissingApiKey))
        } else {
            step == ConfigStep::Finished(Ok(config))
        },
        ConfigLoad::Loaded(Err(e)) => step == ConfigStep::Finished(Err(AxConfigError::ConfigError(e))),
        ConfigLoad::Unreadable => step matches ConfigStep::WriteDefault(config) && is_default_config(
            config,
        ),
        ConfigLoad::Failed(e) => step == ConfigStep::Finished(Err(AxConfigError::ConfigError(e))),
    }
}

/// A default configuration file, once written and read back, is refused
/// for its placeholder key, and is not written again: the first run and
/// every later one until the key is filled in end with `MissingApiKey`.
pub proof fn lemma_default_file_read_back(config: AxConfig, step: ConfigStep)
    requires
        is_default_config(config),
        config_step_follows(ConfigLoad::Loaded(Ok(config)), step),
    ensures
        step matches ConfigStep::Finished(Err(AxConfigError::MissingApiKey)),
{
}

/// The default configuration is written only when there is no readable
/// configuration file.
pub proof fn lemma_only_missing_file_written(load: ConfigLoad, step: ConfigStep)
    requires
        config_step_follows(load, step),
        step is WriteDefault,
    ensures
        load is Unreadable,
{
}

/// Decides what reading the configuration file leads to: a configuration
/// with a real key is used, a broken file is reported, and a missing file is
/// replaced by the default configuration.
pub fn get_config(load: ConfigLoad) -> (step: ConfigStep)
    ensures
        config_step_follows(load, step),
{
    match load {
        ConfigLoad::Loaded(Ok(config)) => ConfigStep::Finished(validate_config(config)),
        ConfigLoad::Loaded(Err(e)) => ConfigStep::Finished(Err(AxConfigError::ConfigError(e))),
        ConfigLoad::Unreadable => ConfigStep::WriteDefault(AxConfig::default()),
        ConfigLoad::Failed(e) => ConfigStep::Finished(Err(AxConfigError::ConfigError(e))),
    }
}

/// The outcome once the default configuration file was written (or not):
/// a failed write is reported, and a written default is refused for its
/// placeholder key.
pub fn after_default_written(written: Result<(), std::io::Error>) -> (result: Result<
    AxConfig,
    AxConfigError,
>)
    ensures
        match written {
            Ok(()) => result matches Err(AxConfigError::MissingApiKey),
            Err(e) => result == Err::<AxConfig, AxConfigError>(AxConfigError::FailedToWriteConfig(e)),
        },
{
    match written {
        Ok(()) => validate_config(AxConfig::default()),
        Err(e) => Err(AxConfigError::FailedToWriteConfig(e)),
    }
}

/// The configuration directory under the home directory `home`.
pub fn get_config_dir(home: &str) -> (dir: String)
    ensures
        dir@ == path_join(home@, ".config"@),
        home@.len() > 0 && home@.last() != '/' ==> dir@ == home@ + seq!['/'] + ".config"@,
{
    proof {
        reveal_strlit(".config");
    }
    join_path(home, ".config")
}

/// The path of the configuration file under the home directory `home`.
pub fn get_config_filepath(home: &str) -> (path: String)
    ensures
        path@ == path_join(path_join(home@, ".config"@), CONFIG_FILE_NAME@),
        home@.len() > 0 && home@.last() != '/' ==> path@ == home@ + seq!['/'] + ".config"@
            + seq!['/'] + CONFIG_FILE_NAME@,
{
    let dir = get_config_dir(home);
    proof {
        reveal_strlit(".config");
        reveal_strlit("ax_gpt.json");
    }
    join_path(dir.as_str(), CONFIG_FILE_NAME)
}

} // verus!
