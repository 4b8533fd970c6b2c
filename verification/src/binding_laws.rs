//! What input does to bindings: which bindings an event fires, which actions a frame's pressed
//! codes make active, and where a section's bindings are read from.
use vstd::prelude::*;
use crate::action_reader::{fired_spec, held_spec};
use crate::actions::{action_bindings_spec, active_actions, bind_pressed_spec, input_code_spec, inputs_of};
use crate::keybinds::{built_keybinds, table_keybinds, Callback, KeyEventView, KeyNameView, KeyState, KeyView, KeybindView};
use crate::settings::{entry_spec, Config, ConfigValue};
use crate::text::string_views;
use crate::vk_input::{built_vk_keybinds, table_vk_keybinds, vk_fired_spec, vk_held_spec, KeybindView as VkBind};

verus! {

/// Whether one key of a binding is satisfied by an event, given what is held: a key required
/// pressed (or released) only by an event of that very key being pressed (or released); a key
/// required held by its being held or by the event pressing it; a key required not held by its
/// not being held or by the event releasing it.
pub open spec fn key_satisfied(key: KeyView, event: KeyEventView, keys: Seq<Seq<char>>, mouse_buttons: Seq<bool>) -> bool {
    match key.key_state {
        KeyState::Pressed => event.name == key.name && event.state == KeyState::Pressed,
        KeyState::Released => event.name == key.name && event.state == KeyState::Released,
        KeyState::Held => held_spec(key.name, keys, mouse_buttons) || (event.name == key.name
            && event.state == KeyState::Pressed),
        KeyState::NotHeld => !held_spec(key.name, keys, mouse_buttons) || (event.name == key.name
            && event.state != KeyState::Pressed),
    }
}

/// Whether every key of a binding is satisfied by an event.
pub open spec fn all_keys_satisfied(b: KeybindView, event: KeyEventView, keys: Seq<Seq<char>>, mouse_buttons: Seq<bool>) -> bool {
    forall|k: int| 0 <= k < b.bind.len() ==> key_satisfied(#[trigger] b.bind[k], event, keys, mouse_buttons)
}

/// Whether a dispatched action is that of a binding whose keys the event all satisfies.
pub open spec fn from_satisfied_binding(
    entry: (Callback, Seq<char>),
    binds: Seq<KeybindView>,
    event: KeyEventView,
    keys: Seq<Seq<char>>,
    mouse_buttons: Seq<bool>,
) -> bool {
    exists|i: int| 0 <= i < binds.len() && entry == (binds[i].callback, binds[i].action)
        && all_keys_satisfied(#[trigger] binds[i], event, keys, mouse_buttons)
}

proof fn lemma_fired_members(binds: Seq<KeybindView>, event: KeyEventView, keys: Seq<Seq<char>>, mouse_buttons: Seq<bool>)
    ensures
        forall|j: int| 0 <= j < fired_spec(binds, event, keys, mouse_buttons).len() ==> from_satisfied_binding(
            #[trigger] fired_spec(binds, event, keys, mouse_buttons)[j], binds, event, keys, mouse_buttons),
        forall|i: int| 0 <= i < binds.len() && all_keys_satisfied(#[trigger] binds[i], event, keys, mouse_buttons)
            ==> fired_spec(binds, event, keys, mouse_buttons).contains((binds[i].callback, binds[i].action)),
    decreases binds.len(),
{
    if binds.len() > 0 {
        let d = binds.drop_last();
        lemma_fired_members(d, event, keys, mouse_buttons);
        let prev = fired_spec(d, event, keys, mouse_buttons);
        let all = fired_spec(binds, event, keys, mouse_buttons);
        let last = binds.last();
        let n = binds.len() - 1;
        assert(crate::action_reader::fires_spec(last, event, keys, mouse_buttons) == all_keys_satisfied(last, event, keys, mouse_buttons)) by {
            assert forall|k: int| 0 <= k < last.bind.len() implies crate::action_reader::bind_check_spec(
                #[trigger] last.bind[k], event, keys, mouse_buttons) == key_satisfied(last.bind[k], event, keys, mouse_buttons) by {}
        }
        assert forall|j: int| 0 <= j < all.len() implies from_satisfied_binding(#[trigger] all[j], binds, event, keys, mouse_buttons) by {
            if j < prev.len() {
                assert(all[j] == prev[j]);
                assert(from_satisfied_binding(prev[j], d, event, keys, mouse_buttons));
                let i = choose|i: int| 0 <= i < d.len() && prev[j] == (d[i].callback, d[i].action)
                    && all_keys_satisfied(#[trigger] d[i], event, keys, mouse_buttons);
                assert(binds[i] == d[i]);
            } else {
                assert(binds[n] == last);
            }
        }
        assert forall|i: int| 0 <= i < binds.len() && all_keys_satisfied(#[trigger] binds[i], event, keys, mouse_buttons)
            implies all.contains((binds[i].callback, binds[i].action)) by {
            if i < n {
                assert(binds[i] == d[i]);
                let j = choose|j: int| 0 <= j < prev.len() && prev[j] == (d[i].callback, d[i].action);
                assert(all[j] == prev[j]);
            } else {
                assert(all[prev.len() as int] == (last.callback, last.action));
            }
        }
    }
}

/// An event fires exactly the bindings whose keys it all satisfies: every action it dispatches
/// belongs to such a binding, and every such binding's action is dispatched. So a key required
/// pressed or released is satisfied only by an event of that same key in that state.
pub proof fn law_event_fires_satisfied_bindings(
    binds: Seq<KeybindView>,
    event: KeyEventView,
    keys: Seq<Seq<char>>,
    mouse_buttons: Seq<bool>,
)
    ensures
        forall|j: int| 0 <= j < fired_spec(binds, event, keys, mouse_buttons).len() ==> from_satisfied_binding(
            #[trigger] fired_spec(binds, event, keys, mouse_buttons)[j], binds, event, keys, mouse_buttons),
        forall|i: int| 0 <= i < binds.len() && all_keys_satisfied(#[trigger] binds[i], event, keys, mouse_buttons)
            ==> fired_spec(binds, event, keys, mouse_buttons).contains((binds[i].callback, binds[i].action)),
{
    lemma_fired_members(binds, event, keys, mouse_buttons);
}

/// Whether a dispatched action is that of a binding that lists `code` and whose codes all
/// count as held.
pub open spec fn from_listing_binding(entry: (Callback, Seq<char>), binds: Seq<VkBind>, code: i32, key_down: Seq<bool>) -> bool {
    exists|i: int| 0 <= i < binds.len() && entry == (binds[i].callback, binds[i].action)
        && (#[trigger] binds[i]).bind.contains(code)
        && forall|k: int| 0 <= k < binds[i].bind.len() ==> vk_held_spec(#[trigger] binds[i].bind[k], key_down)
}

proof fn lemma_vk_fired_members(binds: Seq<VkBind>, code: i32, key_down: Seq<bool>)
    ensures
        forall|j: int| 0 <= j < vk_fired_spec(binds, code, key_down).len() ==> from_listing_binding(
            #[trigger] vk_fired_spec(binds, code, key_down)[j], binds, code, key_down),
        forall|i: int| 0 <= i < binds.len() && (#[trigger] binds[i]).bind.contains(code)
            && (forall|k: int| 0 <= k < binds[i].bind.len() ==> vk_held_spec(#[trigger] binds[i].bind[k], key_down))
            ==> vk_fired_spec(binds, code, key_down).contains((binds[i].callback, binds[i].action)),
    decreases binds.len(),
{
    if binds.len() > 0 {
        let d = binds.drop_last();
        lemma_vk_fired_members(d, code, key_down);
        let prev = vk_fired_spec(d, code, key_down);
        let all = vk_fired_spec(binds, code, key_down);
        let last = binds.last();
        let n = binds.len() - 1;
        assert forall|j: int| 0 <= j < all.len() implies from_listing_binding(#[trigger] all[j], binds, code, key_down) by {
            if j < prev.len() {
                assert(all[j] == prev[j]);
                assert(from_listing_binding(prev[j], d, code, key_down));
                let i = choose|i: int| 0 <= i < d.len() && prev[j] == (d[i].callback, d[i].action)
                    && (#[trigger] d[i]).bind.contains(code)
                    && forall|k: int| 0 <= k < d[i].bind.len() ==> vk_held_spec(#[trigger] d[i].bind[k], key_down);
                assert(binds[i] == d[i]);
            } else {
                assert(binds[n] == last);
            }
        }
        assert forall|i: int| 0 <= i < binds.len() && (#[trigger] binds[i]).bind.contains(code)
            && (forall|k: int| 0 <= k < binds[i].bind.len() ==> vk_held_spec(#[trigger] binds[i].bind[k], key_down))
            implies all.contains((binds[i].callback, binds[i].action)) by {
            if i < n {
                assert(binds[i] == d[i]);
                let j = choose|j: int| 0 <= j < prev.len() && prev[j] == (d[i].callback, d[i].action);
                assert(all[j] == prev[j]);
            } else {
                assert(all[prev.len() as int] == (last.callback, last.action));
            }
        }
    }
}

/// A key code going down fires exactly the bindings that list that code and whose codes all
/// count as held: every dispatched action belongs to such a binding, and every such binding's
/// action is dispatched. A binding that does not list the code never fires on it.
pub proof fn law_key_down_fires_bindings_that_list_it(binds: Seq<VkBind>, code: i32, key_down: Seq<bool>)
    ensures
        forall|j: int| 0 <= j < vk_fired_spec(binds, code, key_down).len() ==> from_listing_binding(
            #[trigger] vk_fired_spec(binds, code, key_down)[j], binds, code, key_down),
        forall|i: int| 0 <= i < binds.len() && (#[trigger] binds[i]).bind.contains(code)
            && (forall|k: int| 0 <= k < binds[i].bind.len() ==> vk_held_spec(#[trigger] binds[i].bind[k], key_down))
            ==> vk_fired_spec(binds, code, key_down).contains((binds[i].callback, binds[i].action)),
        (forall|i: int| 0 <= i < binds.len() ==> !(#[trigger] binds[i]).bind.contains(code)) ==> vk_fired_spec(
            binds,
            code,
            key_down,
        ).len() == 0,
{
    lemma_vk_fired_members(binds, code, key_down);
    if forall|i: int| 0 <= i < binds.len() ==> !(#[trigger] binds[i]).bind.contains(code) {
        if vk_fired_spec(binds, code, key_down).len() > 0 {
            assert(from_listing_binding(vk_fired_spec(binds, code, key_down)[0], binds, code, key_down));
        }
    }
}

/// Whether every input of a binding has its key code among the pressed codes.
pub open spec fn every_input_pressed(inputs: Seq<Seq<char>>, pressed: Seq<i32>) -> bool {
    forall|k: int| 0 <= k < inputs.len() ==> pressed.contains(input_code_spec(#[trigger] inputs[k]))
}

/// Whether an action name is that of a binding whose inputs are all pressed.
pub open spec fn from_pressed_binding(name: Seq<char>, bindings: Seq<(String, Vec<String>)>, pressed: Seq<i32>) -> bool {
    exists|i: int| 0 <= i < bindings.len() && name == bindings[i].0@
        && every_input_pressed(string_views((#[trigger] bindings[i]).1@), pressed)
}

proof fn lemma_active_members(bindings: Seq<(String, Vec<String>)>, pressed: Seq<i32>)
    ensures
        forall|j: int| 0 <= j < active_actions(bindings, pressed).len() ==> from_pressed_binding(
            #[trigger] active_actions(bindings, pressed)[j], bindings, pressed),
        forall|i: int| 0 <= i < bindings.len() && every_input_pressed(string_views((#[trigger] bindings[i]).1@), pressed)
            ==> active_actions(bindings, pressed).contains(bindings[i].0@),
    decreases bindings.len(),
{
    if bindings.len() > 0 {
        let d = bindings.drop_last();
        lemma_active_members(d, pressed);
        let prev = active_actions(d, pressed);
        let all = active_actions(bindings, pressed);
        let last = bindings.last();
        let n = bindings.len() - 1;
        assert(bind_pressed_spec(string_views(last.1@), pressed) == every_input_pressed(string_views(last.1@), pressed));
        assert forall|j: int| 0 <= j < all.len() implies from_pressed_binding(#[trigger] all[j], bindings, pressed) by {
            if j < prev.len() {
                assert(all[j] == prev[j]);
                assert(from_pressed_binding(prev[j], d, pressed));
                let i = choose|i: int| 0 <= i < d.len() && prev[j] == d[i].0@
                    && every_input_pressed(string_views((#[trigger] d[i]).1@), pressed);
                assert(bindings[i] == d[i]);
            } else {
                assert(bindings[n] == last);
            }
        }
        assert forall|i: int| 0 <= i < bindings.len() && every_input_pressed(string_views((#[trigger] bindings[i]).1@), pressed)
            implies all.contains(bindings[i].0@) by {
            if i < n {
                assert(bindings[i] == d[i]);
                let j = choose|j: int| 0 <= j < prev.len() && prev[j] == d[i].0@;
                assert(all[j] == prev[j]);
            } else {
                assert(all[prev.len() as int] == last.0@);
            }
        }
    }
}

/// An action is active in a frame exactly when every one of its inputs is pressed: each active
/// action belongs to a binding whose inputs' codes are all pressed, and each such binding's
/// action is active.
pub proof fn law_active_actions_have_every_input_pressed(bindings: Seq<(String, Vec<String>)>, pressed: Seq<i32>)
    ensures
        forall|inputs: Seq<Seq<char>>| #[trigger] bind_pressed_spec(inputs, pressed) == every_input_pressed(inputs, pressed),
        forall|j: int| 0 <= j < active_actions(bindings, pressed).len() ==> from_pressed_binding(
            #[trigger] active_actions(bindings, pressed)[j], bindings, pressed),
        forall|i: int| 0 <= i < bindings.len() && every_input_pressed(string_views((#[trigger] bindings[i]).1@), pressed)
            ==> active_actions(bindings, pressed).contains(bindings[i].0@),
{
    lemma_active_members(bindings, pressed);
}

/// The value under `controls` in a section, if any.
pub open spec fn controls_of(section: Option<ConfigValue>) -> Option<ConfigValue> {
    match section {
        Some(s) => entry_spec(s, "controls"@),
        None => None,
    }
}

proof fn lemma_controls_query(config: Config)
    ensures
        crate::settings::deep_query_spec(config, seq!["controls"@]) == if controls_of(config.file) is Some {
            controls_of(config.file)
        } else {
            controls_of(config.defaults)
        },
{
    let path = seq!["controls"@];
    assert(path.drop_first() =~= Seq::<Seq<char>>::empty());
    reveal_with_fuel(crate::settings::lookup_spec, 2);
}

/// A section's bindings come from the `controls` table of the section searched first (`file`)
/// when it has one, else from that of the other section (`defaults`), and there are none when
/// neither has one; this holds for the key bindings, the key-code bindings and the polled
/// action bindings alike.
pub proof fn law_controls_come_from_either_section(config: Config, callback: Callback, keycodes: Seq<Seq<char>>)
    ensures
        controls_of(config.file) matches Some(ConfigValue::Table(e)) ==> built_keybinds(config, callback, keycodes)
            == table_keybinds(e@, callback, keycodes) && built_vk_keybinds(config, callback) == table_vk_keybinds(e@, callback)
            && action_bindings_spec(config) == e@.map_values(|x: (String, ConfigValue)| (x.0@, inputs_of(x.1))),
        controls_of(config.file) is None ==> (controls_of(config.defaults) matches Some(ConfigValue::Table(e))
            ==> built_keybinds(config, callback, keycodes) == table_keybinds(e@, callback, keycodes)
            && built_vk_keybinds(config, callback) == table_vk_keybinds(e@, callback)
            && action_bindings_spec(config) == e@.map_values(|x: (String, ConfigValue)| (x.0@, inputs_of(x.1)))),
        controls_of(config.file) is None && controls_of(config.defaults) is None ==> built_keybinds(config, callback, keycodes).len() == 0
            && built_vk_keybinds(config, callback).len() == 0 && action_bindings_spec(config).len() == 0,
{
    lemma_controls_query(config);
}

/// A key code is held exactly when it is among the held keys, and a mouse key `m` followed by a
/// digit exactly when that mouse button is pressed; holding or releasing another input does not
/// change it.
pub proof fn law_held_follows_the_inputs(k: Seq<char>, keys: Seq<Seq<char>>, mouse_buttons: Seq<bool>, d: int)
    requires
        0 <= d <= 9,
    ensures
        held_spec(KeyNameView::Keycode(k), keys, mouse_buttons) == keys.contains(k),
        held_spec(KeyNameView::Keycode(k), keys.push(k), mouse_buttons),
        held_spec(KeyNameView::Other(seq!['m', ('0' as int + d) as char]), keys, mouse_buttons) == (d
            < mouse_buttons.len() && mouse_buttons[d]),
        d < mouse_buttons.len() ==> held_spec(
            KeyNameView::Other(seq!['m', ('0' as int + d) as char]),
            keys,
            mouse_buttons.update(d, true),
        ) && !held_spec(
            KeyNameView::Other(seq!['m', ('0' as int + d) as char]),
            keys,
            mouse_buttons.update(d, false),
        ),
{
    assert(keys.push(k)[keys.len() as int] == k);
    let c = ('0' as int + d) as char;
    assert(c as int == '0' as int + d);
}

/// The code of a key plus 0x1000 stands for that key not being held: for a key code, the two
/// are never held together and one of them always is. Codes outside both ranges always count as
/// held.
pub proof fn law_not_held_code_negates_its_key(code: i32, key_down: Seq<bool>)
    ensures
        0x07 <= code < 0xFE ==> vk_held_spec((code + 0x1000) as i32, key_down) == !vk_held_spec(code, key_down),
        0x07 <= code < 0xFE ==> vk_held_spec(code, key_down) == (code < key_down.len() && key_down[code as int]),
        !(0x07 <= code < 0xFE) && !(0x1007 <= code < 0x10FE) ==> vk_held_spec(code, key_down),
{
}

/// An input's key code does not depend on a leading `0x`: the text with it and the text
/// without it poll the same code.
pub proof fn law_hex_prefix_is_optional(digits: Seq<char>)
    requires
        !"0x"@.is_prefix_of(digits),
    ensures
        input_code_spec("0x"@ + digits) == input_code_spec(digits),
{
    reveal_strlit("0x");
    assert("0x"@.is_prefix_of("0x"@ + digits));
    assert(("0x"@ + digits).skip("0x"@.len() as int) =~= digits);
}

} // verus!
