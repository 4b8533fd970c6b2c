use er_controls::action_reader::{
    action, input, is_held, key_down_callback, key_up_callback, mouse_down_callback,
    mouse_up_callback, scroll_callback, scroll_name, string_from_mouse_button, Dispatch,
    HeldInputs, ReaderAction, Wheel, WheelDirection,
};
use er_controls::keybinds::{
    binding_key_names, build_keybinds, frame_begin, register_bindings, split_key_text,
    Callback, Key, KeyEvent, KeyName, KeyState, KeybindRegistry, Modifiers,
};
use er_controls::settings::{Config, ConfigValue};

fn s(x: &str) -> String {
    x.to_string()
}

fn controls(entries: Vec<(&str, Vec<&str>)>) -> Config {
    let table = entries
        .into_iter()
        .map(|(a, binds)| (s(a), ConfigValue::Array(binds.into_iter().map(|b| ConfigValue::String(s(b))).collect())))
        .collect();
    Config { defaults: None, file: Some(ConfigValue::Table(vec![(s("controls"), ConfigValue::Table(table))])) }
}

fn held(keys: &[&str], mouse: &[bool]) -> HeldInputs {
    HeldInputs { keys: keys.iter().map(|k| s(k)).collect(), mouse_buttons: mouse.to_vec() }
}

fn keycodes() -> Vec<String> {
    vec![s("LShift"), s("A"), s("B"), s("Left")]
}

#[test]
fn modifiers_take_the_first_modifier_character() {
    assert_eq!(Modifiers::parse("^").key_state, KeyState::Released);
    assert_eq!(Modifiers::parse("_").key_state, KeyState::Pressed);
    assert_eq!(Modifiers::parse("!").key_state, KeyState::NotHeld);
    assert_eq!(Modifiers::parse("").key_state, KeyState::Held);
    assert_eq!(Modifiers::parse("-_^").key_state, KeyState::Pressed);
    assert_eq!(Modifiers::default().key_state, KeyState::Held);
    assert_eq!(KeyState::default(), KeyState::Held);
}

#[test]
fn key_text_is_split_into_name_and_modifiers() {
    assert_eq!(split_key_text("^LShift"), (s("LShift"), s("^")));
    assert_eq!(split_key_text("a-b"), (s("ab"), s("-")));
    assert_eq!(split_key_text("{x}=:\"_"), (s("{x}=:\""), s("_")));
}

#[test]
fn keys_are_parsed() {
    let k = Key::parse("^LShift", &keycodes());
    assert_eq!(k.name, KeyName::Keycode(s("LShift")));
    assert_eq!(k.modifiers.key_state, KeyState::Released);
    assert_eq!(k.event, KeyEvent { name: KeyName::Keycode(s("LShift")), state: KeyState::Released });
    let m = Key::parse("_m1", &keycodes());
    assert_eq!(m.name, KeyName::Other(s("m1")));
    assert_eq!(m.event.state, KeyState::Pressed);
    let h = Key::parse("A", &keycodes());
    assert_eq!(h.modifiers.key_state, KeyState::Held);
    assert_eq!(h.event.state, KeyState::Pressed);
    let n = Key::parse("!A", &keycodes());
    assert_eq!(n.event.state, KeyState::Released);
}

#[test]
fn state_match_is_press_or_release() {
    assert_eq!(KeyEvent::state_match(KeyState::Released), KeyState::Released);
    assert_eq!(KeyEvent::state_match(KeyState::NotHeld), KeyState::Released);
    assert_eq!(KeyEvent::state_match(KeyState::Pressed), KeyState::Pressed);
    assert_eq!(KeyEvent::state_match(KeyState::Held), KeyState::Pressed);
}

#[test]
fn key_names() {
    assert_eq!(KeyName::parse("A", &keycodes()), KeyName::Keycode(s("A")));
    assert_eq!(KeyName::parse("ScrollUp", &keycodes()), KeyName::Other(s("ScrollUp")));
    assert!(KeyName::Keycode(s("A")).same(&KeyName::Keycode(s("A"))));
    assert!(!KeyName::Keycode(s("A")).same(&KeyName::Other(s("A"))));
    assert_eq!(KeyName::Other(s("m2")).text(), "m2");
}

#[test]
fn bindings_are_built_per_array_element_and_sorted() {
    let config = controls(vec![("next", vec!["ScrollUp"]), ("cast", vec!["LShift _m1", "A"])]);
    let built = build_keybinds(&config, Callback::SpellSelector, &keycodes());
    assert_eq!(built.len(), 3);
    assert_eq!(built[0].action, s("next"));
    assert_eq!(built[1].bind.len(), 2);
    let mut registry = KeybindRegistry::new();
    register_bindings(&mut registry, &config, Callback::SpellSelector, &keycodes());
    assert_eq!(registry.buffer.len(), 3);
    assert_eq!(registry.buffer[0].action, s("cast"));
    assert_eq!(registry.buffer[0].bind.len(), 2);
    assert!(registry.buffer.iter().all(|k| k.callback == Callback::SpellSelector));
    assert!(registry.keybinds.is_none());
}

#[test]
fn bindings_from_non_arrays_and_non_strings() {
    let table = vec![
        (s("a"), ConfigValue::Integer(3)),
        (s("b"), ConfigValue::Array(vec![ConfigValue::Integer(1)])),
    ];
    let config = Config { defaults: None, file: Some(ConfigValue::Table(vec![(s("controls"), ConfigValue::Table(table))])) };
    let built = build_keybinds(&config, Callback::ActionReader, &[]);
    assert_eq!(built.len(), 1);
    assert_eq!(built[0].action, s("b"));
    assert_eq!(built[0].bind.len(), 1);
    assert_eq!(built[0].bind[0].name, KeyName::Other(s("")));
}

#[test]
fn key_names_mentioned_by_bindings() {
    let config = controls(vec![("x", vec!["^LShift m1", "A"])]);
    assert_eq!(binding_key_names(&config), vec![s("LShift"), s("m1"), s("A")]);
}

#[test]
fn registry_is_finalised_once_in_the_world() {
    let mut registry = KeybindRegistry::new();
    register_bindings(&mut registry, &controls(vec![("a", vec!["A"])]), Callback::ActionReader, &keycodes());
    frame_begin(&mut registry, false);
    assert!(registry.keybinds.is_none());
    frame_begin(&mut registry, true);
    assert_eq!(registry.keybinds.as_ref().unwrap().len(), 1);
    assert!(registry.buffer.is_empty());
    register_bindings(&mut registry, &controls(vec![("b", vec!["A"])]), Callback::ActionReader, &keycodes());
    frame_begin(&mut registry, true);
    assert_eq!(registry.keybinds.as_ref().unwrap().len(), 1);
    assert_eq!(registry.buffer.len(), 1);
}

#[test]
fn a_second_section_is_appended_after_the_first() {
    let mut registry = KeybindRegistry::new();
    register_bindings(&mut registry, &controls(vec![("a", vec!["A"]), ("b", vec!["A B"])]), Callback::ActionReader, &keycodes());
    register_bindings(&mut registry, &controls(vec![("c", vec!["C"]), ("d", vec!["A B C"])]), Callback::SpellSelector, &keycodes());
    let actions: Vec<String> = registry.buffer.iter().map(|k| k.action.clone()).collect();
    assert_eq!(actions, vec![s("b"), s("a"), s("d"), s("c")]);
    let empty = Config { defaults: None, file: None };
    register_bindings(&mut registry, &empty, Callback::SpellSelector, &keycodes());
    assert_eq!(registry.buffer.len(), 4);
}

fn finalised(config: &Config) -> KeybindRegistry {
    let mut registry = KeybindRegistry::new();
    register_bindings(&mut registry, config, Callback::SpellSelector, &keycodes());
    frame_begin(&mut registry, true);
    registry
}

fn dispatched(d: Option<Vec<Dispatch>>) -> Vec<String> {
    d.unwrap().into_iter().map(|x| x.action).collect()
}

#[test]
fn input_before_finalising_triggers_nothing() {
    let registry = KeybindRegistry::new();
    assert!(key_down_callback(&registry, "A", &held(&[], &[])).is_none());
}

#[test]
fn pressed_key_fires_held_binding() {
    let registry = finalised(&controls(vec![("cast", vec!["A"])]));
    assert_eq!(dispatched(key_down_callback(&registry, "A", &held(&[], &[]))), vec![s("cast")]);
    assert_eq!(dispatched(key_down_callback(&registry, "A", &held(&["A"], &[]))), vec![s("cast")]);
    assert_eq!(dispatched(key_up_callback(&registry, "A", &held(&[], &[]))), Vec::<String>::new());
}

#[test]
fn chord_needs_the_held_key() {
    let registry = finalised(&controls(vec![("next", vec!["LShift _m1"])]));
    let down = mouse_down_callback(&registry, 1, &held(&["LShift"], &[false, true]));
    assert_eq!(dispatched(down), vec![s("next")]);
    let alone = mouse_down_callback(&registry, 1, &held(&[], &[false, true]));
    assert_eq!(dispatched(alone), Vec::<String>::new());
    let up = mouse_up_callback(&registry, 1, &held(&["LShift"], &[]));
    assert_eq!(dispatched(up), Vec::<String>::new());
}

#[test]
fn release_binding_fires_on_release() {
    let registry = finalised(&controls(vec![("done", vec!["^A"])]));
    assert_eq!(dispatched(key_up_callback(&registry, "A", &held(&[], &[]))), vec![s("done")]);
    assert_eq!(dispatched(key_down_callback(&registry, "A", &held(&[], &[]))), Vec::<String>::new());
}

#[test]
fn scroll_binding_fires() {
    let registry = finalised(&controls(vec![("prev", vec!["ScrollDown"])]));
    let d = scroll_callback(&registry, Wheel::Vertical, WheelDirection::Backward, &held(&[], &[]));
    assert_eq!(d.unwrap(), vec![Dispatch { callback: Callback::SpellSelector, action: s("prev") }]);
}

#[test]
fn held_inputs() {
    let h = held(&["A"], &[false, true, false]);
    assert!(is_held(&KeyName::Keycode(s("A")), &h));
    assert!(!is_held(&KeyName::Keycode(s("B")), &h));
    assert!(is_held(&KeyName::Other(s("m1")), &h));
    assert!(!is_held(&KeyName::Other(s("m2")), &h));
    assert!(!is_held(&KeyName::Other(s("m9")), &h));
    assert!(!is_held(&KeyName::Other(s("mx")), &h));
    assert!(!is_held(&KeyName::Other(s("ScrollUp")), &h));
}

#[test]
fn mouse_and_scroll_names() {
    assert_eq!(string_from_mouse_button(1), "m1");
    assert_eq!(string_from_mouse_button(5), "m5");
    assert_eq!(string_from_mouse_button(0), "Unknown");
    assert_eq!(string_from_mouse_button(6), "Unknown");
    assert_eq!(scroll_name(Wheel::Horizontal, WheelDirection::Forward), "ScrollRight");
    assert_eq!(scroll_name(Wheel::Horizontal, WheelDirection::Backward), "ScrollLeft");
    assert_eq!(scroll_name(Wheel::Vertical, WheelDirection::Forward), "ScrollUp");
    assert_eq!(scroll_name(Wheel::Vertical, WheelDirection::Backward), "ScrollDown");
    assert_eq!(scroll_name(Wheel::Unknown, WheelDirection::Forward), "Unknown");
}

#[test]
fn reader_actions() {
    assert_eq!(action("manual_refresh"), ReaderAction::RefreshAll);
    assert_eq!(action("debug"), ReaderAction::Debug);
    assert_eq!(action("next"), ReaderAction::Nothing);
}

#[test]
fn input_with_explicit_event() {
    let registry = finalised(&controls(vec![("x", vec!["!A _B"])]));
    let event = KeyEvent { name: KeyName::Keycode(s("B")), state: KeyState::Pressed };
    assert_eq!(dispatched(input(&registry, &event, &held(&[], &[]))), vec![s("x")]);
    assert_eq!(dispatched(input(&registry, &event, &held(&["A"], &[]))), Vec::<String>::new());
}
