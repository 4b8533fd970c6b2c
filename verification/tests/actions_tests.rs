use er_controls::actions::{actions_this_frame, get_action_bindings, input_code, is_input_pressed};
use er_controls::errors::handle_error;
use er_controls::player::{change_spell, equipped_magic, MagicEntry, SpellChange};
use er_controls::settings::{Config, ConfigValue};

fn s(x: &str) -> String {
    x.to_string()
}

#[test]
fn input_codes_are_hexadecimal() {
    assert_eq!(input_code("0x1A"), 26);
    assert_eq!(input_code("41"), 0x41);
    assert_eq!(input_code("zz"), 9001);
    assert_eq!(input_code("0x"), 9001);
    assert_eq!(input_code(""), 9001);
}

#[test]
fn inputs_are_pressed_by_code() {
    assert!(is_input_pressed("0x41", &[0x41]));
    assert!(!is_input_pressed("0x42", &[0x41]));
    assert!(is_input_pressed("mouse", &[9001]));
}

#[test]
fn actions_active_this_frame() {
    let bindings = vec![
        (s("next"), vec![s("0x10"), s("0x41")]),
        (s("prev"), vec![s("0x42")]),
        (s("always"), vec![]),
    ];
    assert_eq!(actions_this_frame(&bindings, &[0x10, 0x41]), vec!["next", "always"]);
    assert_eq!(actions_this_frame(&bindings, &[0x42]), vec!["prev", "always"]);
}

#[test]
fn action_bindings_from_config() {
    let controls = ConfigValue::Table(vec![
        (s("next"), ConfigValue::Array(vec![ConfigValue::String(s("0x10")), ConfigValue::Integer(3)])),
        (s("prev"), ConfigValue::Boolean(true)),
    ]);
    let config = Config { defaults: None, file: Some(ConfigValue::Table(vec![(s("controls"), controls)])) };
    assert_eq!(get_action_bindings(&config), vec![(s("next"), vec![s("0x10")]), (s("prev"), vec![])]);
    let empty = Config { defaults: None, file: None };
    assert!(get_action_bindings(&empty).is_empty());
}

#[test]
fn usable_spell_ids() {
    let entries = [
        MagicEntry { param_id: 4000, charges: 1 },
        MagicEntry { param_id: 4001, charges: 0 },
        MagicEntry { param_id: -1, charges: 3 },
        MagicEntry { param_id: 6000, charges: 2 },
    ];
    assert_eq!(equipped_magic(&entries), vec![4000, 6000]);
}

#[test]
fn spell_changes() {
    assert_eq!(change_spell(-1, &[1, 2]), None);
    assert_eq!(change_spell(1, &[7, 8]), Some(SpellChange { selected_slot: 1, magic_id: Some(8) }));
    assert_eq!(change_spell(5, &[7, 8]), Some(SpellChange { selected_slot: 5, magic_id: None }));
}

#[test]
fn errors_are_reported_unless_ignored() {
    let ignore = vec![s("Off")];
    assert_eq!(handle_error::<u8>(Ok(3), &ignore), (Some(3), None));
    assert_eq!(handle_error::<u8>(Err(s("Off")), &ignore), (None, None));
    assert_eq!(handle_error::<u8>(Err(s("boom")), &ignore), (None, Some(s("boom"))));
}
