use er_controls::keybinds::Callback;
use er_controls::settings::{Config, ConfigValue};
use er_controls::vk_input::{
    build_vk_keybinds, frame_begin, input, is_held, key_down_callback, key_up_callback,
    rdev_callback, register_bindings, MouseButton, MouseEvent, VkRegistry, LEFT, M4, M5, MIDDLE,
    RIGHT, SCROLL_DOWN, SCROLL_LEFT, SCROLL_RIGHT, SCROLL_UP,
};

fn s(x: &str) -> String {
    x.to_string()
}

fn controls(entries: Vec<(&str, ConfigValue)>) -> Config {
    let table = entries.into_iter().map(|(a, b)| (s(a), b)).collect();
    Config { defaults: None, file: Some(ConfigValue::Table(vec![(s("controls"), ConfigValue::Table(table))])) }
}

fn ints(v: &[i64]) -> ConfigValue {
    ConfigValue::Array(v.iter().map(|&n| ConfigValue::Integer(n)).collect())
}

fn keys_down(codes: &[usize]) -> Vec<bool> {
    let mut v = vec![false; 256];
    for &c in codes {
        v[c] = true;
    }
    v
}

#[test]
fn codes_are_read_from_integer_arrays() {
    let config = controls(vec![
        ("a", ints(&[0x41, 0x10])),
        ("b", ConfigValue::Array(vec![ConfigValue::Integer(5_000_000_000), ConfigValue::String(s("x")), ConfigValue::Integer(0x42)])),
        ("c", ConfigValue::Boolean(true)),
    ]);
    let (built, dropped) = build_vk_keybinds(&config, Callback::ActionReader);
    assert_eq!(dropped, vec![5_000_000_000]);
    assert_eq!(built.len(), 3);
    assert_eq!(built[0].bind, vec![0x41, 0x10]);
    assert_eq!(built[1].bind, vec![0x42]);
    assert!(built[2].bind.is_empty());
}

#[test]
fn registered_codes_are_sorted_longest_first() {
    let config = controls(vec![("a", ints(&[1])), ("b", ints(&[1, 2, 3])), ("c", ints(&[1, 2]))]);
    let mut registry = VkRegistry::new();
    let dropped = register_bindings(&mut registry, &config, Callback::SpellSelector);
    assert!(dropped.is_empty());
    let lens: Vec<usize> = registry.buffer.iter().map(|k| k.bind.len()).collect();
    assert_eq!(lens, vec![3, 2, 1]);
    assert_eq!(registry.buffer[0].action, s("b"));
}

#[test]
fn out_of_range_codes_are_dropped_and_returned() {
    let config = controls(vec![("a", ints(&[1])), ("b", ints(&[1, 2])), ("c", ints(&[4294967296]))]);
    let mut registry = VkRegistry::new();
    let dropped = register_bindings(&mut registry, &config, Callback::SpellSelector);
    assert_eq!(dropped, vec![4294967296]);
    assert_eq!(registry.buffer.len(), 3);
    assert_eq!(registry.buffer[0].action, s("b"));
    assert_eq!(registry.buffer[0].bind, vec![1, 2]);
    assert_eq!(registry.buffer[1].action, s("a"));
    assert_eq!(registry.buffer[1].bind, vec![1]);
    assert_eq!(registry.buffer[2].action, s("c"));
    assert!(registry.buffer[2].bind.is_empty());
    assert!(registry.buffer.iter().all(|k| k.callback == Callback::SpellSelector));
}

#[test]
fn a_second_code_section_is_appended_after_the_first() {
    let mut registry = VkRegistry::new();
    register_bindings(&mut registry, &controls(vec![("a", ints(&[1])), ("b", ints(&[1, 2]))]), Callback::SpellSelector);
    let dropped = register_bindings(
        &mut registry,
        &controls(vec![("c", ints(&[3])), ("d", ints(&[3, 4, 5])), ("e", ints(&[-5_000_000_000, 7]))]),
        Callback::ActionReader,
    );
    assert_eq!(dropped, vec![-5_000_000_000]);
    let actions: Vec<String> = registry.buffer.iter().map(|k| k.action.clone()).collect();
    assert_eq!(actions[..2], [s("b"), s("a")]);
    assert_eq!(actions[2], s("d"));
    assert_eq!(registry.buffer.len(), 5);
    let empty = Config { defaults: None, file: None };
    assert!(register_bindings(&mut registry, &empty, Callback::ActionReader).is_empty());
    assert_eq!(registry.buffer.len(), 5);
}

#[test]
fn held_codes() {
    let down = keys_down(&[0x41]);
    assert!(is_held(0x41, &down));
    assert!(!is_held(0x42, &down));
    assert!(!is_held(0x1041, &down));
    assert!(is_held(0x1042, &down));
    assert!(is_held(SCROLL_UP, &down));
    assert!(is_held(LEFT, &down));
    assert!(!is_held(0x41, &[]));
}

#[test]
fn key_down_fires_bindings_containing_it() {
    let config = controls(vec![("combo", ints(&[0x10, 0x41])), ("single", ints(&[0x41])), ("other", ints(&[0x42]))]);
    let mut registry = VkRegistry::new();
    register_bindings(&mut registry, &config, Callback::SpellSelector);
    assert!(input(&registry, 0x41, &keys_down(&[0x41])).is_none());
    frame_begin(&mut registry, true);
    let fired: Vec<String> = key_down_callback(&registry, 0x41, &keys_down(&[0x41]))
        .unwrap()
        .into_iter()
        .map(|d| d.action)
        .collect();
    assert_eq!(fired, vec![s("single")]);
    let fired: Vec<String> = key_down_callback(&registry, 0x41, &keys_down(&[0x41, 0x10]))
        .unwrap()
        .into_iter()
        .map(|d| d.action)
        .collect();
    assert_eq!(fired, vec![s("combo"), s("single")]);
    assert!(key_up_callback(0x41).is_empty());
}

#[test]
fn not_held_code_blocks_a_binding() {
    let config = controls(vec![("plain", ints(&[SCROLL_UP as i64, 0x1010]))]);
    let mut registry = VkRegistry::new();
    register_bindings(&mut registry, &config, Callback::ActionReader);
    frame_begin(&mut registry, true);
    assert_eq!(input(&registry, SCROLL_UP, &keys_down(&[])).unwrap().len(), 1);
    assert_eq!(input(&registry, SCROLL_UP, &keys_down(&[0x10])).unwrap().len(), 0);
}

#[test]
fn pointer_events_give_codes() {
    assert_eq!(rdev_callback(MouseEvent::ButtonPress(MouseButton::Middle)), vec![MIDDLE]);
    assert_eq!(rdev_callback(MouseEvent::ButtonPress(MouseButton::Left)), vec![LEFT]);
    assert_eq!(rdev_callback(MouseEvent::ButtonPress(MouseButton::Right)), vec![RIGHT]);
    assert_eq!(rdev_callback(MouseEvent::ButtonPress(MouseButton::Unknown(1))), vec![M4]);
    assert_eq!(rdev_callback(MouseEvent::ButtonPress(MouseButton::Unknown(2))), vec![M5]);
    assert!(rdev_callback(MouseEvent::ButtonPress(MouseButton::Unknown(3))).is_empty());
    assert!(rdev_callback(MouseEvent::ButtonRelease(MouseButton::Left)).is_empty());
    assert_eq!(rdev_callback(MouseEvent::Wheel { delta_x: 0, delta_y: 1 }), vec![SCROLL_UP]);
    assert_eq!(rdev_callback(MouseEvent::Wheel { delta_x: -2, delta_y: -1 }), vec![SCROLL_DOWN, SCROLL_LEFT]);
    assert_eq!(rdev_callback(MouseEvent::Wheel { delta_x: 3, delta_y: 0 }), vec![SCROLL_RIGHT]);
    assert!(rdev_callback(MouseEvent::Other).is_empty());
}
