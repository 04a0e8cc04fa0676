//! The configuration file, which caches a personal access token.
//!
//! This module turns a configuration into the text of its file and back; the
//! caller reads and writes the file.
use vstd::prelude::*;
use toml::de::Error as TomlDeError;
use toml::ser::Error as TomlSerError;

verus! {

#[verifier::external_type_specification]
#[verifier::external_body]
pub struct ExTomlSerError(TomlSerError);

#[verifier::external_type_specification]
#[verifier::external_body]
pub struct ExTomlDeError(TomlDeError);

/// The pretty TOML document holding one table entry, `key`, whose value is
/// the string `value`; `None` where the serializer fails.
pub uninterp spec fn toml_string_document(key: Seq<char>, value: Seq<char>) -> Option<Seq<char>>;

/// What the TOML document `data` holds under `key`: `None` where `data` is
/// no TOML document, `Some(None)` where the entry is missing or no string.
pub uninterp spec fn toml_string_entry(data: Seq<char>, key: Seq<char>) -> Option<Option<Seq<char>>>;

/// Relies on toml::to_string_pretty, on a table of one string entry: the
/// document it writes depends on the key and the value alone.
#[verifier::external_body]
fn render_string_entry(key: &str, value: &str) -> (r: Result<String, TomlSerError>)
    ensures
        match r {
            Ok(doc) => toml_string_document(key@, value@) == Some(doc@),
            Err(_) => toml_string_document(key@, value@) is None,
        },
{
    let mut table = toml::Table::new();
    table.insert(key.to_owned(), toml::Value::String(value.to_owned()));
    toml::to_string_pretty(&table)
}

/// Relies on toml::from_str into a toml::Table, and on reading one entry of
/// it as a string: what comes out depends on the document and the key alone.
#[verifier::external_body]
fn read_string_entry(data: &str, key: &str) -> (r: Result<Option<String>, TomlDeError>)
    ensures
        match r {
            Ok(entry) => toml_string_entry(data@, key@) == Some(
                match entry {
                    Some(s) => Some(s@),
                    None => None,
                },
            ),
            Err(_) => toml_string_entry(data@, key@) is None,
        },
{
    toml::from_str::<toml::Table>(data).map(
        |t| t.get(key).and_then(|v| v.as_str()).map(|s| s.to_owned()),
    )
}

/// What the configuration file can fail on, besides reading and writing it.
#[derive(Debug)]
pub enum Error {
    TomlSerialize { context: String, inner: TomlSerError },
    TomlDeserialize { context: String, inner: TomlDeError },
    /// The document holds no string `personal_access_token`.
    MissingToken,
}

/// The configuration kept between runs.
#[derive(Clone, Debug)]
pub struct Config {
    pub personal_access_token: String,
}

pub open spec fn token_key() -> Seq<char> {
    "personal_access_token"@
}

/// The text of the file of a configuration with this token: its TOML document
/// and a line break.
pub open spec fn config_text(token: Seq<char>) -> Option<Seq<char>> {
    match toml_string_document(token_key(), token) {
        Some(doc) => Some(doc + "\n"@),
        None => None,
    }
}

impl Default for Config {
    fn default() -> (r: Config)
        ensures
            r.personal_access_token@ == Seq::<char>::empty(),
    {
        Config { personal_access_token: String::new() }
    }
}

impl Config {
    /// The text of this configuration's file.
    pub fn save(&self) -> (r: Result<String, Error>)
        ensures
            match config_text(self.personal_access_token@) {
                Some(text) => r matches Ok(t) && t@ == text,
                None => r matches Err(Error::TomlSerialize { context, .. }) && context@
                    == "serialize config"@,
            },
    {
        match render_string_entry("personal_access_token", self.personal_access_token.as_str()) {
            Ok(doc) => {
                proof {
                    reveal_strlit("\n");
                }
                Ok(doc.concat("\n"))
            },
            Err(inner) => Err(Error::TomlSerialize { context: String::from_str("serialize config"), inner }),
        }
    }

    /// The configuration that the file text `data` holds.
    pub fn load(data: &str) -> (r: Result<Config, Error>)
        ensures
            match toml_string_entry(data@, token_key()) {
                Some(Some(token)) => r matches Ok(c) && c.personal_access_token@ == token,
                Some(None) => r matches Err(Error::MissingToken),
                None => r matches Err(Error::TomlDeserialize { context, .. }) && context@
                    == "deserialize config file"@,
            },
    {
        match read_string_entry(data, "personal_access_token") {
            Ok(Some(token)) => Ok(Config { personal_access_token: token }),
            Ok(None) => Err(Error::MissingToken),
            Err(inner) => Err(
                Error::TomlDeserialize { context: String::from_str("deserialize config file"), inner },
            ),
        }
    }
}

} // verus!
