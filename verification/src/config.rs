//! Configuration: the file's shape and the rule that resolves it against
//! the environment. Reading the environment and the file is the caller's
//! business; the precedence rule lives here.

use vstd::prelude::*;

verus! {

/// The `[api]` table of the configuration file.
#[derive(Debug)]
pub struct ApiConfig {
    pub steam_api_key: Option<String>,
    pub steam_id: Option<String>,
}

impl Default for ApiConfig {
    /// An empty table: nothing configured.
    fn default() -> (r: Self)
        ensures
            r.steam_api_key is None,
            r.steam_id is None,
    {
        ApiConfig { steam_api_key: None, steam_id: None }
    }
}

/// The `[display]` table of the configuration file.
#[derive(Debug, Clone)]
pub struct DisplayConfig {
    pub show_top_games: usize,
    pub show_recently_played: bool,
    pub show_achievements: bool,
    pub show_rarest: bool,
}

impl Default for DisplayConfig {
    /// Five top games, everything shown.
    fn default() -> (r: Self)
        ensures
            r.show_top_games == 5,
            r.show_recently_played,
            r.show_achievements,
            r.show_rarest,
    {
        DisplayConfig {
            show_top_games: 5,
            show_recently_played: true,
            show_achievements: true,
            show_rarest: true,
        }
    }
}

/// The configuration file as read from disk.
#[derive(Debug)]
pub struct ConfigFile {
    pub api: ApiConfig,
    pub display: DisplayConfig,
}

impl Default for ConfigFile {
    /// The file's defaults: nothing configured, everything shown.
    fn default() -> (r: Self)
        ensures
            r.api.steam_api_key is None,
            r.api.steam_id is None,
            r.display.show_top_games == 5,
            r.display.show_recently_played,
            r.display.show_achievements,
            r.display.show_rarest,
    {
        ConfigFile { api: ApiConfig::default(), display: DisplayConfig::default() }
    }
}

/// The resolved configuration a run needs.
#[derive(Debug)]
pub struct Config {
    pub api_key: String,
    pub steam_id: String,
    pub display: DisplayConfig,
}

/// What keeps a configuration from resolving.
#[derive(Debug, Clone, PartialEq, Eq, Structural)]
pub enum ConfigError {
    /// No API key in the environment or the file.
    MissingApiKey,
    /// No platform identifier in the environment or the file.
    MissingSteamId,
}

impl Config {
    /// Resolve the configuration: the environment's values take precedence
    /// over the file's, the API key is required first, then the platform
    /// identifier.
    pub fn resolve(env_api_key: Option<String>, env_steam_id: Option<String>, file: ConfigFile)
        -> (r: Result<Config, ConfigError>)
        ensures
            match r {
                Ok(c) => {
                    &&& (env_api_key is Some || file.api.steam_api_key is Some)
                    &&& (env_steam_id is Some || file.api.steam_id is Some)
                    &&& c.api_key == (if env_api_key is Some {
                        env_api_key->0
                    } else {
                        file.api.steam_api_key->0
                    })
                    &&& c.steam_id == (if env_steam_id is Some {
                        env_steam_id->0
                    } else {
                        file.api.steam_id->0
                    })
                    &&& c.display == file.display
                },
                Err(ConfigError::MissingApiKey) => env_api_key is None
                    && file.api.steam_api_key is None,
                Err(ConfigError::MissingSteamId) => (env_api_key is Some
                    || file.api.steam_api_key is Some) && env_steam_id is None
                    && file.api.steam_id is None,
            },
    {
        let api_key = match env_api_key {
            Some(k) => k,
            None => match file.api.steam_api_key {
                Some(k) => k,
                None => {
                    return Err(ConfigError::MissingApiKey);
                },
            },
        };
        let steam_id = match env_steam_id {
            Some(k) => k,
            None => match file.api.steam_id {
                Some(k) => k,
                None => {
                    return Err(ConfigError::MissingSteamId);
                },
            },
        };
        Ok(Config { api_key, steam_id, display: file.display })
    }
}

} // verus!
