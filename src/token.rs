//! Caching the personal access token in the configuration file.
use vstd::prelude::*;
use crate::config::{config_text, Config, Error};

verus! {

/// The text of the configuration file once `personal_access_token` is cached
/// in it. `existing` is what the file held before, if it could be read; where
/// it could not, the default configuration is the starting point.
pub fn save(existing: Result<Config, Error>, personal_access_token: String) -> (r: Result<String, Error>)
    ensures
        match config_text(personal_access_token@) {
            Some(text) => r matches Ok(t) && t@ == text,
            None => r matches Err(Error::TomlSerialize { .. }),
        },
{
    let mut config = match existing {
        Ok(c) => c,
        Err(_) => Config::default(),
    };
    config.personal_access_token = personal_access_token;
    config.save()
}

/// The cached token, where the configuration could be read.
pub fn load(loaded: Result<Config, Error>) -> (r: Option<String>)
    ensures
        match loaded {
            Ok(c) => r == Some(c.personal_access_token),
            Err(_) => r is None,
        },
{
    match loaded {
        Ok(c) => Some(c.personal_access_token),
        Err(_) => None,
    }
}

} // verus!
