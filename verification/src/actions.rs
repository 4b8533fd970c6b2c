//! Frame-polled bindings: each action is bound to a list of inputs written as hexadecimal key
//! codes, and an action is active in a frame when all of its inputs are pressed.
use vstd::prelude::*;
use crate::settings::{Config, ConfigValue, deep_query_spec, path_view};
use crate::text::{parse_i32, parse_i32_spec, string_views, strip_prefix};

verus! {

/// The key code polled for an input: the input read as a hexadecimal number (after an optional
/// `0x`), or code 9001 when it is not one.
pub open spec fn input_code_spec(input: Seq<char>) -> i32 {
    let digits = if "0x"@.is_prefix_of(input) {
        input.skip("0x"@.len() as int)
    } else {
        input
    };
    match parse_i32_spec(digits, 16) {
        Some(k) => k,
        None => 9001,
    }
}

/// The key code polled for an input.
pub fn input_code(input: &str) -> (r: i32)
    ensures
        r == input_code_spec(input@),
{
    let digits = match strip_prefix(input, "0x") {
        Some(rest) => rest,
        None => input,
    };
    match parse_i32(digits, 16) {
        Some(k) => k,
        None => 9001,
    }
}

/// Whether an input is pressed: its key code is among the pressed codes.
pub open spec fn input_pressed_spec(input: Seq<char>, pressed: Seq<i32>) -> bool {
    pressed.contains(input_code_spec(input))
}

/// Whether an input is pressed, given the key codes pressed this frame.
pub fn is_input_pressed(input: &str, pressed: &[i32]) -> (r: bool)
    ensures
        r == input_pressed_spec(input@, pressed@),
{
    let code = input_code(input);
    let mut i: usize = 0;
    while i < pressed.len()
        invariant
            i <= pressed@.len(),
            code == input_code_spec(input@),
            forall|j: int| 0 <= j < i ==> pressed@[j] != code,
        decreases pressed@.len() - i,
    {
        if pressed[i] == code {
            assert(pressed@[i as int] == code);
            return true;
        }
        i = i + 1;
    }
    false
}

/// Whether all inputs of a binding are pressed.
pub open spec fn bind_pressed_spec(bind: Seq<Seq<char>>, pressed: Seq<i32>) -> bool {
    forall|i: int| 0 <= i < bind.len() ==> input_pressed_spec(#[trigger] bind[i], pressed)
}

/// The names of the actions whose inputs are all pressed, in order.
pub open spec fn active_actions(bindings: Seq<(String, Vec<String>)>, pressed: Seq<i32>) -> Seq<Seq<char>>
    decreases bindings.len(),
{
    if bindings.len() == 0 {
        Seq::empty()
    } else {
        let prev = active_actions(bindings.drop_last(), pressed);
        if bind_pressed_spec(string_views(bindings.last().1@), pressed) {
            prev.push(bindings.last().0@)
        } else {
            prev
        }
    }
}

/// The actions active this frame, given the key codes pressed.
pub fn actions_this_frame<'a>(bindings: &'a [(String, Vec<String>)], pressed: &[i32]) -> (r: Vec<&'a str>)
    ensures
        r@.map_values(|s: &str| s@) == active_actions(bindings@, pressed@),
{
    let mut out: Vec<&'a str> = Vec::new();
    let mut i: usize = 0;
    assert(out@.map_values(|s: &str| s@) =~= Seq::<Seq<char>>::empty());
    while i < bindings.len()
        invariant
            i <= bindings@.len(),
            out@.map_values(|s: &str| s@) == active_actions(bindings@.take(i as int), pressed@),
        decreases bindings@.len() - i,
    {
        proof {
            assert(bindings@.take(i + 1).drop_last() =~= bindings@.take(i as int));
        }
        let bind = &bindings[i].1;
        let mut all = true;
        let mut j: usize = 0;
        while j < bind.len()
            invariant
                j <= bind@.len(),
                all == forall|k: int| 0 <= k < j ==> input_pressed_spec(#[trigger] bind@[k]@, pressed@),
            decreases bind@.len() - j,
        {
            if !is_input_pressed(bind[j].as_str(), pressed) {
                all = false;
            }
            j = j + 1;
        }
        proof {
            assert(all == bind_pressed_spec(string_views(bind@), pressed@)) by {
                if all {
                    assert forall|k: int| 0 <= k < string_views(bind@).len() implies input_pressed_spec(
                        #[trigger] string_views(bind@)[k],
                        pressed@,
                    ) by {
                        assert(string_views(bind@)[k] == bind@[k]@);
                    }
                } else {
                    let k = choose|k: int| 0 <= k < j && !input_pressed_spec(#[trigger] bind@[k]@, pressed@);
                    assert(string_views(bind@)[k] == bind@[k]@);
                }
            }
        }
        if all {
            let ghost before = out@;
            out.push(bindings[i].0.as_str());
            assert(out@.map_values(|s: &str| s@) =~= before.map_values(|s: &str| s@).push(
                bindings@[i as int].0@,
            ));
        }
        i = i + 1;
    }
    assert(bindings@.take(bindings@.len() as int) =~= bindings@);
    out
}

/// The inputs of a binding value: its string elements when it is an array, none otherwise.
pub open spec fn inputs_of(bind: ConfigValue) -> Seq<Seq<char>> {
    match bind {
        ConfigValue::Array(elements) => elements@.filter_map(
            |e: ConfigValue|
                match e {
                    ConfigValue::String(s) => Some(s@),
                    _ => None,
                },
        ),
        _ => Seq::empty(),
    }
}

/// The actions and their inputs that a configuration section declares under `controls`.
pub open spec fn action_bindings_spec(config: Config) -> Seq<(Seq<char>, Seq<Seq<char>>)> {
    match deep_query_spec(config, seq!["controls"@]) {
        Some(ConfigValue::Table(entries)) => entries@.map_values(
            |e: (String, ConfigValue)| (e.0@, inputs_of(e.1)),
        ),
        _ => Seq::empty(),
    }
}

/// The abstract value of a list of bindings.
pub open spec fn binding_views(b: Seq<(String, Vec<String>)>) -> Seq<(Seq<char>, Seq<Seq<char>>)> {
    b.map_values(|x: (String, Vec<String>)| (x.0@, string_views(x.1@)))
}

fn inputs_from_value(bind: &ConfigValue) -> (r: Vec<String>)
    ensures
        string_views(r@) == inputs_of(*bind),
{
    let mut out: Vec<String> = Vec::new();
    match bind.as_array() {
        None => {
            assert(string_views(out@) =~= Seq::<Seq<char>>::empty());
        },
        Some(elements) => {
            let ghost f = |e: ConfigValue|
                match e {
                    ConfigValue::String(s) => Some(s@),
                    _ => None,
                };
            let mut i: usize = 0;
            assert(string_views(out@) =~= Seq::<Seq<char>>::empty());
            while i < elements.len()
                invariant
                    i <= elements@.len(),
                    f == (|e: ConfigValue|
                        match e {
                            ConfigValue::String(s) => Some(s@),
                            _ => None,
                        }),
                    string_views(out@) == elements@.take(i as int).filter_map(f),
                decreases elements@.len() - i,
            {
                proof {
                    elements@.lemma_filter_map_take_succ(f, i as int);
                }
                match elements[i].as_str() {
                    Some(s) => {
                        let ghost before = out@;
                        out.push(String::from_str(s));
                        assert(string_views(out@) =~= string_views(before).push(s@));
                    },
                    None => {},
                }
                i = i + 1;
            }
            assert(elements@.take(elements@.len() as int) =~= elements@);
        },
    }
    out
}

/// The actions and their inputs that a configuration section declares.
pub fn get_action_bindings(config: &Config) -> (r: Vec<(String, Vec<String>)>)
    ensures
        binding_views(r@) == action_bindings_spec(*config),
{
    let mut path: Vec<&str> = Vec::new();
    path.push("controls");
    assert(path_view(path@) =~= seq!["controls"@]);
    let mut out: Vec<(String, Vec<String>)> = Vec::new();
    let table = match config.deep_query(path.as_slice()) {
        Some(v) => v.as_table(),
        None => None,
    };
    match table {
        None => {
            assert(binding_views(out@) =~= Seq::<(Seq<char>, Seq<Seq<char>>)>::empty());
        },
        Some(entries) => {
            let ghost g = |e: (String, ConfigValue)| (e.0@, inputs_of(e.1));
            let mut i: usize = 0;
            while i < entries.len()
                invariant
                    i <= entries@.len(),
                    g == (|e: (String, ConfigValue)| (e.0@, inputs_of(e.1))),
                    binding_views(out@) =~= entries@.take(i as int).map_values(g),
                decreases entries@.len() - i,
            {
                let inputs = inputs_from_value(&entries[i].1);
                let ghost before = out@;
                out.push((entries[i].0.clone(), inputs));
                proof {
                    assert(binding_views(out@) =~= binding_views(before).push(g(entries@[i as int])));
                    assert(entries@.take(i + 1) =~= entries@.take(i as int).push(entries@[i as int]));
                }
                i = i + 1;
            }
            assert(entries@.take(entries@.len() as int) =~= entries@);
        },
    }
    out
}

} // verus!
