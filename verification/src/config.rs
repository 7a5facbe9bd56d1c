//! Loading the configuration from a TOML document.
//!
//! The document must hold a table `api` with two strings in it:
//! `api_token`, the secret the bot logs in with, and `api_weather`, the key
//! of the weather service. Nothing is defaulted: a document that lacks one
//! of them is refused.
//!
//! Reading TOML is left to the `toml` crate. What this module assumes of
//! that crate is stated on the items marked `external_body`; the rest is
//! proved from it.

use vstd::prelude::*;
use vstd::string::StringExecFns;

verus! {

/// A TOML value, as far as the configuration cares: a string, a table, or
/// anything else.
pub enum Item {
    Text(Seq<char>),
    Table(Map<Seq<char>, Item>),
    Other,
}

/// `toml::map::Map`, the type behind `toml::Table`. Nothing is known of
/// what one holds but through `entries_of`.
#[verifier::external_type_specification]
#[verifier::external_body]
#[verifier::reject_recursive_types(K)]
#[verifier::reject_recursive_types(V)]
pub struct ExTomlMap<K, V>(toml::map::Map<K, V>);

/// `toml::Value`, what a table holds under its keys. It is only ever
/// looked at inside `lookup`.
#[verifier::external_type_specification]
#[verifier::external_body]
pub struct ExTomlValue(toml::Value);

/// `toml::de::Error`, why a text was refused. It is never looked into.
#[verifier::external_type_specification]
#[verifier::external_body]
pub struct ExTomlError(toml::de::Error);

/// The top-level table that `toml::from_str` reads `text` as, or `None`
/// where it refuses `text`.
pub uninterp spec fn document_of(text: Seq<char>) -> Option<Map<Seq<char>, Item>>;

/// What a table of the `toml` crate holds, key by key.
pub uninterp spec fn entries_of(table: toml::Table) -> Map<Seq<char>, Item>;

/// What is found under one key of a table.
pub enum Entry<'a> {
    Text(&'a str),
    Table(&'a toml::Table),
    Other,
}

impl<'a> Entry<'a> {
    /// The value that this entry stands for.
    pub open spec fn item(self) -> Item {
        match self {
            Entry::Text(s) => Item::Text(s@),
            Entry::Table(t) => Item::Table(entries_of(*t)),
            Entry::Other => Item::Other,
        }
    }
}

/// Calls `toml::from_str` for a `toml::Table`. Assumed: the call succeeds
/// exactly on the texts that `document_of` knows, and the table it gives
/// holds what `document_of` says.
#[verifier::external_body]
fn parse_document(text: &str) -> (r: Result<toml::Table, toml::de::Error>)
    ensures
        r is Ok <==> document_of(text@) is Some,
        r matches Ok(table) ==> Some(entries_of(table)) == document_of(text@),
{
    toml::from_str::<toml::Table>(text)
}

/// Calls `toml::map::Map::get` and tells the variants of the `toml::Value`
/// it finds apart. Assumed: a value is found exactly under the keys of the
/// table, a `Value::String` comes back as its text, a `Value::Table` as
/// itself, and each as what `entries_of` holds under that key.
#[verifier::external_body]
fn lookup<'a>(table: &'a toml::Table, key: &str) -> (r: Option<Entry<'a>>)
    ensures
        r is Some <==> entries_of(*table).dom().contains(key@),
        r matches Some(entry) ==> entry.item() == entries_of(*table)[key@],
{
    match table.get(key) {
        None => None,
        Some(toml::Value::String(s)) => Some(Entry::Text(s.as_str())),
        Some(toml::Value::Table(t)) => Some(Entry::Table(t)),
        Some(_) => Some(Entry::Other),
    }
}

/// A part of the configuration document.
#[derive(Debug, Clone, Copy, PartialEq, Eq, Structural)]
pub enum Key {
    /// The table `api`.
    Api,
    /// The string `api_token` in `api`.
    ApiToken,
    /// The string `api_weather` in `api`.
    ApiWeather,
}

/// Why a configuration was refused.
#[derive(Debug, Clone, Copy, PartialEq, Eq, Structural)]
pub enum ConfigError {
    /// The text is not a TOML document.
    Syntax,
    /// The document lacks this part.
    Missing(Key),
    /// This part is there but is of the wrong kind.
    Invalid(Key),
}

/// The secrets the bot runs with.
#[derive(Debug, Clone, PartialEq, Eq)]
pub struct Config {
    /// Logs the bot in at the gateway.
    pub api_token: String,
    /// Identifies the bot to the weather service.
    pub api_weather: String,
}

pub struct ConfigView {
    pub api_token: Seq<char>,
    pub api_weather: Seq<char>,
}

impl View for Config {
    type V = ConfigView;

    open spec fn view(&self) -> ConfigView {
        ConfigView { api_token: self.api_token@, api_weather: self.api_weather@ }
    }
}

/// The view of the outcome of loading.
pub open spec fn loaded_view(r: Result<Config, ConfigError>) -> Result<ConfigView, ConfigError> {
    match r {
        Ok(c) => Ok(c@),
        Err(e) => Err(e),
    }
}

/// The string that must stand under a key, given what stands there.
pub open spec fn required_text_of(found: Option<Item>, key: Key) -> Result<Seq<char>, ConfigError> {
    match found {
        None => Err(ConfigError::Missing(key)),
        Some(Item::Text(s)) => Ok(s),
        Some(_) => Err(ConfigError::Invalid(key)),
    }
}

/// What stands under `key` in `entries`, if anything.
pub open spec fn found_in(entries: Map<Seq<char>, Item>, key: Seq<char>) -> Option<Item> {
    if entries.dom().contains(key) {
        Some(entries[key])
    } else {
        None
    }
}

/// The configuration that the table `api` gives. The token is looked at
/// first.
pub open spec fn config_of_api(api: Map<Seq<char>, Item>) -> Result<ConfigView, ConfigError> {
    match required_text_of(found_in(api, "api_token"@), Key::ApiToken) {
        Err(e) => Err(e),
        Ok(api_token) => match required_text_of(found_in(api, "api_weather"@), Key::ApiWeather) {
            Err(e) => Err(e),
            Ok(api_weather) => Ok(ConfigView { api_token, api_weather }),
        },
    }
}

/// The configuration that a document gives.
pub open spec fn config_of_document(doc: Map<Seq<char>, Item>) -> Result<ConfigView, ConfigError> {
    match found_in(doc, "api"@) {
        None => Err(ConfigError::Missing(Key::Api)),
        Some(Item::Table(api)) => config_of_api(api),
        Some(_) => Err(ConfigError::Invalid(Key::Api)),
    }
}

/// The configuration that a text gives.
pub open spec fn config_of(text: Seq<char>) -> Result<ConfigView, ConfigError> {
    match document_of(text) {
        None => Err(ConfigError::Syntax),
        Some(doc) => config_of_document(doc),
    }
}

/// Whether a document holds all that is asked for: a table `api`, and in
/// it the two strings.
pub open spec fn complete(doc: Map<Seq<char>, Item>) -> bool {
    &&& found_in(doc, "api"@) matches Some(Item::Table(api))
    &&& found_in(api, "api_token"@) matches Some(Item::Text(_))
    &&& found_in(api, "api_weather"@) matches Some(Item::Text(_))
}

/// Loading succeeds on the complete documents and on no others, and what
/// is loaded is what the document holds.
pub proof fn lemma_complete_documents_load(doc: Map<Seq<char>, Item>)
    ensures
        config_of_document(doc) is Ok <==> complete(doc),
        config_of_document(doc) matches Ok(config) ==> {
            &&& found_in(doc, "api"@) matches Some(Item::Table(api))
            &&& found_in(api, "api_token"@) == Some(Item::Text(config.api_token))
            &&& found_in(api, "api_weather"@) == Some(Item::Text(config.api_weather))
        },
{
}

/// A document whose table `api` has no `api_token` is refused, and for
/// that reason, whatever else it holds.
pub proof fn lemma_missing_token_is_refused(doc: Map<Seq<char>, Item>)
    requires
        found_in(doc, "api"@) matches Some(Item::Table(api)) && found_in(api, "api_token"@)
            is None,
    ensures
        config_of_document(doc) == Err::<ConfigView, ConfigError>(
            ConfigError::Missing(Key::ApiToken),
        ),
{
}

/// A text loads exactly when it is a TOML document and that document is
/// complete; what it loads as depends on the text alone.
pub proof fn lemma_loading(text: Seq<char>)
    ensures
        config_of(text) is Ok <==> (document_of(text) matches Some(doc) && complete(doc)),
        document_of(text) is None ==> config_of(text) == Err::<ConfigView, ConfigError>(
            ConfigError::Syntax,
        ),
{
    if let Some(doc) = document_of(text) {
        lemma_complete_documents_load(doc);
    }
}

/// The view of what was found under a key.
pub open spec fn found_item(found: Option<Entry<'_>>) -> Option<Item> {
    match found {
        Some(entry) => Some(entry.item()),
        None => None,
    }
}

/// The view of a string or the reason there is none.
pub open spec fn text_view(r: Result<String, ConfigError>) -> Result<Seq<char>, ConfigError> {
    match r {
        Ok(s) => Ok(s@),
        Err(e) => Err(e),
    }
}

/// Takes the string that must stand under `key` out of what was found
/// there.
pub fn required_text(found: Option<Entry<'_>>, key: Key) -> (r: Result<String, ConfigError>)
    ensures
        text_view(r) == required_text_of(found_item(found), key),
{
    match found {
        None => Err(ConfigError::Missing(key)),
        Some(Entry::Text(s)) => Ok(String::from_str(s)),
        Some(_) => Err(ConfigError::Invalid(key)),
    }
}

impl Config {
    /// Reads the configuration out of a parsed document.
    pub fn from_table(doc: &toml::Table) -> (r: Result<Config, ConfigError>)
        ensures
            loaded_view(r) == config_of_document(entries_of(*doc)),
    {
        match lookup(doc, "api") {
            None => Err(ConfigError::Missing(Key::Api)),
            Some(Entry::Table(api)) => {
                let api_token = match required_text(lookup(api, "api_token"), Key::ApiToken) {
                    Ok(s) => s,
                    Err(e) => {
                        return Err(e);
                    },
                };
                let api_weather = match required_text(lookup(api, "api_weather"), Key::ApiWeather) {
                    Ok(s) => s,
                    Err(e) => {
                        return Err(e);
                    },
                };
                Ok(Config { api_token, api_weather })
            },
            Some(_) => Err(ConfigError::Invalid(Key::Api)),
        }
    }

    /// Loads the configuration from the text of a TOML document.
    pub fn from_toml(text: &str) -> (r: Result<Config, ConfigError>)
        ensures
            loaded_view(r) == config_of(text@),
    {
        match parse_document(text) {
            Ok(doc) => Config::from_table(&doc),
            Err(_) => Err(ConfigError::Syntax),
        }
    }
}

} // verus!
