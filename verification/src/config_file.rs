//! Reading the configuration documents: the user's file when it parses, else the built-in one.
use vstd::prelude::*;
use crate::settings::{entry_spec, Config, ConfigValue};

verus! {

/// `toml::Value`, carried through the parser's wrapper only.
#[verifier::external_type_specification]
#[verifier::external_body]
pub struct ExTomlValue(toml::Value);

/// What `toml::from_str::<toml::Value>` gives for a document's text, held as a `ConfigValue`
/// (`None` when the text is not a valid TOML document).
pub uninterp spec fn toml_document(text: Seq<char>) -> Option<ConfigValue>;

/// Holds a `toml::Value` as a `ConfigValue`, variant by variant; floats and dates, which the
/// mod never reads, become `Other`.
#[verifier::external_body]
fn config_value_of(value: toml::Value) -> ConfigValue {
    match value {
        toml::Value::String(s) => ConfigValue::String(s),
        toml::Value::Integer(n) => ConfigValue::Integer(n),
        toml::Value::Float(_) => ConfigValue::Other,
        toml::Value::Boolean(b) => ConfigValue::Boolean(b),
        toml::Value::Datetime(_) => ConfigValue::Other,
        toml::Value::Array(a) => ConfigValue::Array(a.into_iter().map(config_value_of).collect()),
        toml::Value::Table(t) => ConfigValue::Table(t.into_iter().map(|(k, v)| (k, config_value_of(v))).collect()),
    }
}

/// Calls `toml::from_str::<toml::Value>` on `text`; claims that the result, held as a
/// `ConfigValue`, depends on the text alone.
#[verifier::external_body]
fn parse_toml(text: &str) -> (r: Option<ConfigValue>)
    ensures
        r == toml_document(text@),
{
    toml::from_str::<toml::Value>(text).ok().map(config_value_of)
}

/// Where the configuration in use came from.
#[derive(Clone, Copy, Debug, PartialEq, Eq, Structural)]
pub enum ConfigSource {
    /// The user's file, which parsed.
    File,
    /// The built-in document: there was no file, or it did not parse.
    BuiltIn,
}

/// The configuration in use and the built-in one.
pub struct LoadedConfig {
    pub full: ConfigValue,
    pub built_in: ConfigValue,
    pub source: ConfigSource,
}

/// Whether the user's file is there and parses.
pub open spec fn file_parses(file_text: Option<Seq<char>>) -> bool {
    file_text matches Some(t) && toml_document(t) is Some
}

/// The text of an optional file.
pub open spec fn text_view(file_text: Option<&str>) -> Option<Seq<char>> {
    match file_text {
        Some(t) => Some(t@),
        None => None,
    }
}

/// The configuration in use: the user's file when it is there and parses, else the built-in
/// document.
pub open spec fn full_document(file_text: Option<Seq<char>>, built_in: Seq<char>) -> Option<ConfigValue> {
    if file_parses(file_text) {
        toml_document(file_text->0)
    } else {
        toml_document(built_in)
    }
}

/// Parses the configuration documents: the user's file (`None` when it could not be read) is
/// used when it parses, else the built-in document. `None` when the built-in document does not
/// parse.
pub fn load_config(file_text: Option<&str>, built_in: &str) -> (r: Option<LoadedConfig>)
    ensures
        r is Some <==> toml_document(built_in@) is Some,
        r matches Some(l) ==> {
            &&& l.built_in == toml_document(built_in@)->0
            &&& file_parses(text_view(file_text)) ==> l.source == ConfigSource::File
                && l.full == toml_document(text_view(file_text)->0)->0
            &&& !file_parses(text_view(file_text)) ==> l.source == ConfigSource::BuiltIn
                && l.full == toml_document(built_in@)->0
        },
{
    let defaults = match parse_toml(built_in) {
        Some(d) => d,
        None => return None,
    };
    let from_file = match file_text {
        Some(t) => parse_toml(t),
        None => None,
    };
    match from_file {
        Some(full) => Some(LoadedConfig { full, built_in: defaults, source: ConfigSource::File }),
        None => {
            let full = match parse_toml(built_in) {
                Some(d) => d,
                None => return None,
            };
            Some(LoadedConfig { full, built_in: defaults, source: ConfigSource::BuiltIn })
        },
    }
}

/// The section `context` of the configuration documents, as `Config::new` makes it from the
/// configuration in use and the built-in one; `None` when the built-in document does not parse.
pub fn load_section(context: &str, file_text: Option<&str>, built_in: &str) -> (r: Option<Config>)
    ensures
        r is Some <==> toml_document(built_in@) is Some,
        r matches Some(c) ==> c.defaults == entry_spec(
            full_document(text_view(file_text), built_in@)->0,
            context@,
        ) && c.file == entry_spec(toml_document(built_in@)->0, context@),
{
    match load_config(file_text, built_in) {
        Some(l) => Some(Config::new(context, l.full, l.built_in)),
        None => None,
    }
}

} // verus!
