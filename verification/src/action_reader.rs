//! The action reader: turns key and mouse events into the actions of the bindings they
//! complete, given which keys and mouse buttons are held at that moment.
use vstd::prelude::*;
use crate::keybinds::{
    Callback, Key, KeyEvent, KeyEventView, KeyName, KeyNameView, KeyState, KeyView, Keybind,
    KeybindRegistry, KeybindView, keybind_views,
};
use crate::text::{str_eq, string_views};

verus! {

/// What is held at the moment of an event: the key codes held down, and for each mouse button
/// number whether it is pressed.
pub struct HeldInputs {
    pub keys: Vec<String>,
    pub mouse_buttons: Vec<bool>,
}

/// Whether a key is held: a key code when it is among the held keys; a mouse button named `m`
/// and one digit when the button of that number is pressed; any other input never.
pub open spec fn held_spec(name: KeyNameView, keys: Seq<Seq<char>>, mouse_buttons: Seq<bool>) -> bool {
    match name {
        KeyNameView::Keycode(k) => keys.contains(k),
        KeyNameView::Other(s) => if s.len() == 2 && s[0] == 'm' && '0' <= s[1] && s[1] <= '9' {
            let d = s[1] as int - '0' as int;
            d < mouse_buttons.len() && mouse_buttons[d]
        } else {
            false
        },
    }
}

/// Whether the key named `key` is held.
pub fn is_held(key: &KeyName, held: &HeldInputs) -> (r: bool)
    ensures
        r == held_spec(key@, string_views(held.keys@), held.mouse_buttons@),
{
    match key {
        KeyName::Keycode(k) => crate::keybinds::contains_text(held.keys.as_slice(), k.as_str()),
        KeyName::Other(s) => {
            let text = s.as_str();
            if text.unicode_len() != 2 {
                return false;
            }
            let first = text.get_char(0);
            let second = text.get_char(1);
            if first != 'm' || second < '0' || second > '9' {
                return false;
            }
            let d = (second as u32 - '0' as u32) as usize;
            d < held.mouse_buttons.len() && held.mouse_buttons[d]
        },
    }
}

/// Whether a key of a binding matches an event. A key that must be released or pressed
/// matches only an event of that key in the corresponding state. A key that must be held (or
/// not held) matches when it is (or is not) held, or when the event is that key being pressed
/// (or released).
pub open spec fn bind_check_spec(
    key: KeyView,
    event: KeyEventView,
    keys: Seq<Seq<char>>,
    mouse_buttons: Seq<bool>,
) -> bool {
    match key.key_state {
        KeyState::Released | KeyState::Pressed => event.name == key.name && event.state
            == key.key_state,
        KeyState::NotHeld | KeyState::Held => (held_spec(key.name, keys, mouse_buttons) == (
        key.key_state == KeyState::Held)) || (event.name == key.name && ((event.state
            == KeyState::Pressed) == (key.key_state == KeyState::Held))),
    }
}

fn bind_check(key: &Key, event: &KeyEvent, held: &HeldInputs) -> (r: bool)
    ensures
        r == bind_check_spec(key@, event@, string_views(held.keys@), held.mouse_buttons@),
{
    match key.modifiers.key_state {
        KeyState::Released | KeyState::Pressed => event.name.same(&key.name) && event.state
            == key.modifiers.key_state,
        KeyState::NotHeld | KeyState::Held => {
            let want_held = key.modifiers.key_state == KeyState::Held;
            (is_held(&key.name, held) == want_held) || (event.name.same(&key.name) && ((
            event.state == KeyState::Pressed) == want_held))
        },
    }
}

/// Whether every key of a binding matches an event.
pub open spec fn fires_spec(
    keybind: KeybindView,
    event: KeyEventView,
    keys: Seq<Seq<char>>,
    mouse_buttons: Seq<bool>,
) -> bool {
    forall|i: int|
        0 <= i < keybind.bind.len() ==> bind_check_spec(
            #[trigger] keybind.bind[i],
            event,
            keys,
            mouse_buttons,
        )
}

fn fires(keybind: &Keybind, event: &KeyEvent, held: &HeldInputs) -> (r: bool)
    ensures
        r == fires_spec(keybind@, event@, string_views(held.keys@), held.mouse_buttons@),
{
    let mut i: usize = 0;
    while i < keybind.bind.len()
        invariant
            i <= keybind.bind@.len(),
            forall|j: int|
                0 <= j < i ==> bind_check_spec(
                    #[trigger] keybind@.bind[j],
                    event@,
                    string_views(held.keys@),
                    held.mouse_buttons@,
                ),
        decreases keybind.bind@.len() - i,
    {
        if !bind_check(&keybind.bind[i], event, held) {
            assert(keybind@.bind[i as int] == keybind.bind@[i as int]@);
            return false;
        }
        i = i + 1;
    }
    true
}

/// An action to perform: the function to call and the action name to call it with.
#[derive(Clone, Debug, PartialEq, Eq)]
pub struct Dispatch {
    pub callback: Callback,
    pub action: String,
}

/// The abstract value of a list of dispatches.
pub open spec fn dispatch_views(d: Seq<Dispatch>) -> Seq<(Callback, Seq<char>)> {
    d.map_values(|x: Dispatch| (x.callback, x.action@))
}

/// The actions of the bindings that an event completes, in the order of the bindings.
pub open spec fn fired_spec(
    binds: Seq<KeybindView>,
    event: KeyEventView,
    keys: Seq<Seq<char>>,
    mouse_buttons: Seq<bool>,
) -> Seq<(Callback, Seq<char>)>
    decreases binds.len(),
{
    if binds.len() == 0 {
        Seq::empty()
    } else {
        let prev = fired_spec(binds.drop_last(), event, keys, mouse_buttons);
        if fires_spec(binds.last(), event, keys, mouse_buttons) {
            prev.push((binds.last().callback, binds.last().action))
        } else {
            prev
        }
    }
}

/// The actions that an event triggers: none before the bindings are finalised; afterwards
/// those of every finalised binding whose keys all match the event.
pub fn input(registry: &KeybindRegistry, event: &KeyEvent, held: &HeldInputs) -> (r: Option<Vec<Dispatch>>)
    ensures
        registry.keybinds is None ==> r is None,
        registry.keybinds matches Some(k) ==> (r matches Some(d) && dispatch_views(d@)
            == fired_spec(keybind_views(k@), event@, string_views(held.keys@), held.mouse_buttons@)),
{
    let binds = match &registry.keybinds {
        Some(k) => k,
        None => return None,
    };
    let ghost views = keybind_views(binds@);
    let ghost keys = string_views(held.keys@);
    let mut out: Vec<Dispatch> = Vec::new();
    let mut i: usize = 0;
    assert(dispatch_views(out@) =~= Seq::<(Callback, Seq<char>)>::empty());
    while i < binds.len()
        invariant
            i <= binds@.len(),
            views == keybind_views(binds@),
            keys == string_views(held.keys@),
            dispatch_views(out@) == fired_spec(views.take(i as int), event@, keys, held.mouse_buttons@),
        decreases binds@.len() - i,
    {
        proof {
            assert(views.take(i + 1).drop_last() =~= views.take(i as int));
            assert(views.take(i + 1).last() == binds@[i as int]@);
        }
        if fires(&binds[i], event, held) {
            let ghost before = out@;
            out.push(Dispatch { callback: binds[i].callback, action: binds[i].action.clone() });
            assert(dispatch_views(out@) =~= dispatch_views(before).push(
                (binds@[i as int].callback, binds@[i as int].action@),
            ));
        }
        i = i + 1;
    }
    assert(views.take(binds@.len() as int) =~= views);
    Some(out)
}

/// A key code going down: a pressed event of that key.
pub fn key_down_callback(registry: &KeybindRegistry, keycode: &str, held: &HeldInputs) -> (r: Option<Vec<Dispatch>>)
    ensures
        registry.keybinds is None ==> r is None,
        registry.keybinds matches Some(k) ==> (r matches Some(d) && dispatch_views(d@)
            == fired_spec(
            keybind_views(k@),
            KeyEventView { name: KeyNameView::Keycode(keycode@), state: KeyState::Pressed },
            string_views(held.keys@),
            held.mouse_buttons@,
        )),
{
    input(registry, &KeyEvent { name: KeyName::Keycode(String::from_str(keycode)), state: KeyState::Pressed }, held)
}

/// A key code going up: a released event of that key.
pub fn key_up_callback(registry: &KeybindRegistry, keycode: &str, held: &HeldInputs) -> (r: Option<Vec<Dispatch>>)
    ensures
        registry.keybinds is None ==> r is None,
        registry.keybinds matches Some(k) ==> (r matches Some(d) && dispatch_views(d@)
            == fired_spec(
            keybind_views(k@),
            KeyEventView { name: KeyNameView::Keycode(keycode@), state: KeyState::Released },
            string_views(held.keys@),
            held.mouse_buttons@,
        )),
{
    input(registry, &KeyEvent { name: KeyName::Keycode(String::from_str(keycode)), state: KeyState::Released }, held)
}

/// The input name of mouse button number `button`: `m1` to `m5`, `Unknown` for any other.
pub open spec fn mouse_button_name(button: usize) -> Seq<char> {
    if button == 1 {
        "m1"@
    } else if button == 2 {
        "m2"@
    } else if button == 3 {
        "m3"@
    } else if button == 4 {
        "m4"@
    } else if button == 5 {
        "m5"@
    } else {
        "Unknown"@
    }
}

/// The input name of a mouse button.
pub fn string_from_mouse_button(button: usize) -> (r: String)
    ensures
        r@ == mouse_button_name(button),
{
    let name = if button == 1 {
        "m1"
    } else if button == 2 {
        "m2"
    } else if button == 3 {
        "m3"
    } else if button == 4 {
        "m4"
    } else if button == 5 {
        "m5"
    } else {
        "Unknown"
    };
    String::from_str(name)
}

/// A mouse button going down: a pressed event of its input name.
pub fn mouse_down_callback(registry: &KeybindRegistry, button: usize, held: &HeldInputs) -> (r: Option<Vec<Dispatch>>)
    ensures
        registry.keybinds is None ==> r is None,
        registry.keybinds matches Some(k) ==> (r matches Some(d) && dispatch_views(d@)
            == fired_spec(
            keybind_views(k@),
            KeyEventView {
                name: KeyNameView::Other(mouse_button_name(button)),
                state: KeyState::Pressed,
            },
            string_views(held.keys@),
            held.mouse_buttons@,
        )),
{
    input(registry, &KeyEvent { name: KeyName::Other(string_from_mouse_button(button)), state: KeyState::Pressed }, held)
}

/// A mouse button going up: a released event of its input name.
pub fn mouse_up_callback(registry: &KeybindRegistry, button: usize, held: &HeldInputs) -> (r: Option<Vec<Dispatch>>)
    ensures
        registry.keybinds is None ==> r is None,
        registry.keybinds matches Some(k) ==> (r matches Some(d) && dispatch_views(d@)
            == fired_spec(
            keybind_views(k@),
            KeyEventView {
                name: KeyNameView::Other(mouse_button_name(button)),
                state: KeyState::Released,
            },
            string_views(held.keys@),
            held.mouse_buttons@,
        )),
{
    input(registry, &KeyEvent { name: KeyName::Other(string_from_mouse_button(button)), state: KeyState::Released }, held)
}

/// The axis of a scroll wheel.
#[derive(Clone, Copy, Debug, PartialEq, Eq, Structural)]
pub enum Wheel {
    Horizontal,
    Vertical,
    Unknown,
}

/// The direction a scroll wheel turns.
#[derive(Clone, Copy, Debug, PartialEq, Eq, Structural)]
pub enum WheelDirection {
    Forward,
    Backward,
    Unknown,
}

/// The input name of a scroll: right, left, up or down, `Unknown` otherwise.
pub open spec fn scroll_name_spec(wheel: Wheel, direction: WheelDirection) -> Seq<char> {
    match (wheel, direction) {
        (Wheel::Horizontal, WheelDirection::Forward) => "ScrollRight"@,
        (Wheel::Horizontal, WheelDirection::Backward) => "ScrollLeft"@,
        (Wheel::Vertical, WheelDirection::Forward) => "ScrollUp"@,
        (Wheel::Vertical, WheelDirection::Backward) => "ScrollDown"@,
        _ => "Unknown"@,
    }
}

/// The input name of a scroll.
pub fn scroll_name(wheel: Wheel, direction: WheelDirection) -> (r: String)
    ensures
        r@ == scroll_name_spec(wheel, direction),
{
    let name = match (wheel, direction) {
        (Wheel::Horizontal, WheelDirection::Forward) => "ScrollRight",
        (Wheel::Horizontal, WheelDirection::Backward) => "ScrollLeft",
        (Wheel::Vertical, WheelDirection::Forward) => "ScrollUp",
        (Wheel::Vertical, WheelDirection::Backward) => "ScrollDown",
        _ => "Unknown",
    };
    String::from_str(name)
}

/// A scroll: a pressed event of its input name.
pub fn scroll_callback(
    registry: &KeybindRegistry,
    wheel: Wheel,
    direction: WheelDirection,
    held: &HeldInputs,
) -> (r: Option<Vec<Dispatch>>)
    ensures
        registry.keybinds is None ==> r is None,
        registry.keybinds matches Some(k) ==> (r matches Some(d) && dispatch_views(d@)
            == fired_spec(
            keybind_views(k@),
            KeyEventView {
                name: KeyNameView::Other(scroll_name_spec(wheel, direction)),
                state: KeyState::Pressed,
            },
            string_views(held.keys@),
            held.mouse_buttons@,
        )),
{
    input(registry, &KeyEvent { name: KeyName::Other(scroll_name(wheel, direction)), state: KeyState::Pressed }, held)
}

/// What the reader's own actions do.
#[derive(Clone, Copy, Debug, PartialEq, Eq, Structural)]
pub enum ReaderAction {
    /// Re-read the equipped spells and weapons.
    RefreshAll,
    /// Run the debugging routine.
    Debug,
    /// Nothing.
    Nothing,
}

/// The reader's action named `action`.
pub open spec fn action_spec(action: Seq<char>) -> ReaderAction {
    if action == "manual_refresh"@ {
        ReaderAction::RefreshAll
    } else if action == "debug"@ {
        ReaderAction::Debug
    } else {
        ReaderAction::Nothing
    }
}

/// The reader's action named `action`.
pub fn action(name: &str) -> (r: ReaderAction)
    ensures
        r == action_spec(name@),
{
    if str_eq(name, "manual_refresh") {
        ReaderAction::RefreshAll
    } else if str_eq(name, "debug") {
        ReaderAction::Debug
    } else {
        ReaderAction::Nothing
    }
}

} // verus!
