use er_controls::config_file::{load_config, load_section, ConfigSource};
use er_controls::game_mod::{entry_point, mod_list, GameMod};
use er_controls::settings::{query_bool, Config, ConfigValue};

fn table(entries: Vec<(&str, ConfigValue)>) -> ConfigValue {
    ConfigValue::Table(entries.into_iter().map(|(k, v)| (k.to_string(), v)).collect())
}

#[test]
fn get_and_accessors() {
    let v = table(vec![("a", ConfigValue::Integer(3)), ("b", ConfigValue::Boolean(true))]);
    assert_eq!(v.get("a").and_then(|x| x.as_integer()), Some(3));
    assert_eq!(v.get("b").and_then(|x| x.as_bool()), Some(true));
    assert!(v.get("c").is_none());
    assert!(ConfigValue::Integer(1).get("a").is_none());
    assert_eq!(ConfigValue::String("x".to_string()).as_str(), Some("x"));
    assert!(ConfigValue::Other.as_bool().is_none());
    assert!(ConfigValue::Array(vec![]).as_array().is_some());
    assert!(v.as_table().is_some());
}

#[test]
fn deep_query_prefers_the_file_value() {
    let file = table(vec![("x", table(vec![("y", ConfigValue::Integer(1))]))]);
    let defaults = table(vec![
        ("x", table(vec![("y", ConfigValue::Integer(2)), ("z", ConfigValue::Integer(3))])),
    ]);
    let config = Config { defaults: Some(defaults), file: Some(file) };
    assert_eq!(config.deep_query(&["x", "y"]).and_then(|v| v.as_integer()), Some(1));
    assert_eq!(config.deep_query(&["x", "z"]).and_then(|v| v.as_integer()), Some(3));
    assert!(config.deep_query(&["x", "w"]).is_none());
    assert!(config.deep_query(&["x", "y", "deeper"]).is_none());
    assert!(config.deep_query(&[]).unwrap().get("x").is_some());
}

#[test]
fn new_keeps_the_built_in_section_first() {
    let full = table(vec![("general", table(vec![("k", ConfigValue::Integer(10))]))]);
    let built_in = table(vec![("general", table(vec![("k", ConfigValue::Integer(20))]))]);
    let config = Config::new("general", full, built_in);
    assert_eq!(config.deep_query(&["k"]).and_then(|v| v.as_integer()), Some(20));
    assert_eq!(config.defaults.as_ref().unwrap().get("k").and_then(|v| v.as_integer()), Some(10));
    let missing = Config::new("other", table(vec![]), ConfigValue::Integer(1));
    assert!(missing.defaults.is_none() && missing.file.is_none());
}

#[test]
fn booleans_fall_back() {
    let config = Config { defaults: None, file: Some(table(vec![("on", ConfigValue::Boolean(false))])) };
    assert!(!query_bool(&config, &["on"], true));
    assert!(query_bool(&config, &["missing"], true));
    assert!(!query_bool(&config, &["missing"], false));
}

#[test]
fn mods_are_enabled_unless_switched_off() {
    let mods = mod_list();
    assert_eq!(mods, vec![GameMod { context: "action_reader" }, GameMod { context: "spell_selector" }]);
    let none = Config { defaults: None, file: None };
    assert_eq!(entry_point(&none, &mods), mods);
    let general = table(vec![("enabled", table(vec![("action_reader", ConfigValue::Boolean(false))]))]);
    let config = Config { defaults: None, file: Some(general) };
    assert_eq!(entry_point(&config, &mods), vec![GameMod { context: "spell_selector" }]);
    let odd = table(vec![("enabled", table(vec![("spell_selector", ConfigValue::Integer(0))]))]);
    let config = Config { defaults: None, file: Some(odd) };
    assert_eq!(entry_point(&config, &mods), mods);
}

const BUILT_IN: &str = "[spell_selector]\nauto_refresh = true\n";

#[test]
fn documents_are_parsed_into_tables() {
    let text = "top = 1\n[spell_selector]\nauto_refresh = false\nspeed = 1.5\nwhen = 1979-05-27\n[spell_selector.controls]\nnext = [\"A B\", \"C\"]\n";
    let loaded = load_config(Some(text), BUILT_IN).unwrap();
    assert_eq!(loaded.source, ConfigSource::File);
    assert_eq!(loaded.full.get("top").and_then(|v| v.as_integer()), Some(1));
    let section = loaded.full.get("spell_selector").unwrap();
    assert_eq!(section.get("auto_refresh").and_then(|v| v.as_bool()), Some(false));
    assert!(matches!(section.get("speed"), Some(ConfigValue::Other)));
    assert!(matches!(section.get("when"), Some(ConfigValue::Other)));
    let binds = section.get("controls").and_then(|c| c.get("next")).and_then(|v| v.as_array()).unwrap();
    assert_eq!(binds.len(), 2);
    assert_eq!(binds[0].as_str(), Some("A B"));
    assert_eq!(loaded.built_in.get("spell_selector").and_then(|s| s.get("auto_refresh")).and_then(|v| v.as_bool()), Some(true));
}

#[test]
fn a_file_that_does_not_parse_falls_back_to_the_built_in_document() {
    let loaded = load_config(Some("[spell_selector\nauto_refresh = "), BUILT_IN).unwrap();
    assert_eq!(loaded.source, ConfigSource::BuiltIn);
    assert_eq!(loaded.full.get("spell_selector").and_then(|s| s.get("auto_refresh")).and_then(|v| v.as_bool()), Some(true));
    let missing = load_config(None, BUILT_IN).unwrap();
    assert_eq!(missing.source, ConfigSource::BuiltIn);
    assert!(missing.full.get("spell_selector").is_some());
    assert!(load_config(Some("a = 1"), "not toml [").is_none());
}

#[test]
fn sections_are_loaded_with_the_built_in_values_first() {
    let file = "[spell_selector]\nauto_refresh = false\nno_miscast = true\n";
    let config = load_section("spell_selector", Some(file), BUILT_IN).unwrap();
    assert!(query_bool(&config, &["auto_refresh"], false));
    assert!(query_bool(&config, &["no_miscast"], false));
    assert!(load_section("spell_selector", Some(file), "= broken").is_none());
    let other = load_section("general", None, BUILT_IN).unwrap();
    assert!(other.defaults.is_none() && other.file.is_none());
}
