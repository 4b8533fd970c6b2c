//! The virtual-key-code reader: bindings are lists of virtual key codes, mouse buttons and
//! scrolling get codes of their own, and a key going down triggers every binding that
//! contains it and whose keys are all held.
use vstd::prelude::*;
use crate::action_reader::{Dispatch, dispatch_views};
use crate::keybinds::Callback;
use crate::settings::{Config, ConfigValue, deep_query_spec, path_view};

verus! {

/// Left mouse button.
pub const LEFT: i32 = 0x01;

/// Right mouse button.
pub const RIGHT: i32 = 0x02;

/// Middle mouse button.
pub const MIDDLE: i32 = 0x04;

/// Fourth mouse button.
pub const M4: i32 = 0x05;

/// Fifth mouse button.
pub const M5: i32 = 0x06;

/// Scrolling up.
pub const SCROLL_UP: i32 = 0x100;

/// Scrolling down.
pub const SCROLL_DOWN: i32 = 0x101;

/// Scrolling left.
pub const SCROLL_LEFT: i32 = 0x102;

/// Scrolling right.
pub const SCROLL_RIGHT: i32 = 0x103;

/// A binding of virtual key codes; a code plus 0x1000 stands for that key not being held.
#[derive(Clone, Debug, PartialEq, Eq)]
pub struct Keybind {
    pub action: String,
    pub bind: Vec<i32>,
    pub callback: Callback,
}

/// The abstract value of a binding.
pub struct KeybindView {
    pub action: Seq<char>,
    pub bind: Seq<i32>,
    pub callback: Callback,
}

impl View for Keybind {
    type V = KeybindView;

    open spec fn view(&self) -> KeybindView {
        KeybindView { action: self.action@, bind: self.bind@, callback: self.callback }
    }
}

/// The abstract values of a list of bindings.
pub open spec fn vk_views(binds: Seq<Keybind>) -> Seq<KeybindView> {
    binds.map_values(|k: Keybind| k@)
}

/// The code an array element gives: an integer that fits in an `i32`; other elements are
/// dropped.
pub open spec fn code_of(e: ConfigValue) -> Option<i32> {
    match e {
        ConfigValue::Integer(n) => if i32::MIN <= n <= i32::MAX {
            Some(n as i32)
        } else {
            None
        },
        _ => None,
    }
}

/// The codes of a binding value: the codes of its elements when it is an array, none otherwise.
pub open spec fn codes_of(binds: ConfigValue) -> Seq<i32> {
    match binds {
        ConfigValue::Array(elements) => elements@.filter_map(|e: ConfigValue| code_of(e)),
        _ => Seq::empty(),
    }
}

/// The integer an array element holds when it does not fit in an `i32`: such an element is
/// dropped from its binding and reported.
pub open spec fn dropped_of(e: ConfigValue) -> Option<i64> {
    match e {
        ConfigValue::Integer(n) => if i32::MIN <= n <= i32::MAX {
            None
        } else {
            Some(n)
        },
        _ => None,
    }
}

/// The out-of-range integers of a binding value, in order.
pub open spec fn dropped_codes(binds: ConfigValue) -> Seq<i64> {
    match binds {
        ConfigValue::Array(elements) => elements@.filter_map(|e: ConfigValue| dropped_of(e)),
        _ => Seq::empty(),
    }
}

/// The out-of-range integers of a controls table, action after action.
pub open spec fn table_vk_dropped(entries: Seq<(String, ConfigValue)>) -> Seq<i64>
    decreases entries.len(),
{
    if entries.len() == 0 {
        Seq::empty()
    } else {
        table_vk_dropped(entries.drop_last()) + dropped_codes(entries.last().1)
    }
}

/// The out-of-range integers that a configuration section's `controls` table holds.
pub open spec fn built_vk_dropped(config: Config) -> Seq<i64> {
    match deep_query_spec(config, seq!["controls"@]) {
        Some(ConfigValue::Table(entries)) => table_vk_dropped(entries@),
        _ => Seq::empty(),
    }
}

/// The bindings of a controls table: one for each action, in order.
pub open spec fn table_vk_keybinds(entries: Seq<(String, ConfigValue)>, callback: Callback) -> Seq<
    KeybindView,
> {
    entries.map_values(
        |e: (String, ConfigValue)|
            KeybindView { action: e.0@, bind: codes_of(e.1), callback: callback },
    )
}

/// The bindings that a configuration section declares under `controls`.
pub open spec fn built_vk_keybinds(config: Config, callback: Callback) -> Seq<KeybindView> {
    match deep_query_spec(config, seq!["controls"@]) {
        Some(ConfigValue::Table(entries)) => table_vk_keybinds(entries@, callback),
        _ => Seq::empty(),
    }
}

fn codes_from_value(binds: &ConfigValue, dropped: &mut Vec<i64>) -> (r: Vec<i32>)
    ensures
        r@ == codes_of(*binds),
        final(dropped)@ == old(dropped)@ + dropped_codes(*binds),
{
    let mut out: Vec<i32> = Vec::new();
    let ghost start = dropped@;
    match binds.as_array() {
        None => {
            assert(start + Seq::<i64>::empty() =~= start);
        },
        Some(elements) => {
            let ghost f = |e: ConfigValue| code_of(e);
            let ghost g = |e: ConfigValue| dropped_of(e);
            let mut i: usize = 0;
            assert(start + elements@.take(0).filter_map(g) =~= start);
            while i < elements.len()
                invariant
                    i <= elements@.len(),
                    f == (|e: ConfigValue| code_of(e)),
                    g == (|e: ConfigValue| dropped_of(e)),
                    out@ == elements@.take(i as int).filter_map(f),
                    dropped@ == start + elements@.take(i as int).filter_map(g),
                decreases elements@.len() - i,
            {
                proof {
                    elements@.lemma_filter_map_take_succ(f, i as int);
                    elements@.lemma_filter_map_take_succ(g, i as int);
                }
                let ghost before = dropped@;
                match elements[i].as_integer() {
                    Some(n) => {
                        if -0x8000_0000 <= n && n <= 0x7fff_ffff {
                            out.push(n as i32);
                        } else {
                            dropped.push(n);
                        }
                    },
                    None => {},
                }
                proof {
                    if g(elements@[i as int]) is Some {
                        assert(dropped@ =~= start + elements@.take(i as int).filter_map(g).push(
                            g(elements@[i as int])->0,
                        ));
                    }
                }
                i = i + 1;
            }
            assert(elements@.take(elements@.len() as int) =~= elements@);
        },
    }
    out
}

/// Collects the bindings that a configuration section declares, with the out-of-range integers
/// that were left out of them.
pub fn build_vk_keybinds(config: &Config, callback: Callback) -> (r: (Vec<Keybind>, Vec<i64>))
    ensures
        vk_views(r.0@) == built_vk_keybinds(*config, callback),
        r.1@ == built_vk_dropped(*config),
{
    let mut path: Vec<&str> = Vec::new();
    path.push("controls");
    assert(path_view(path@) =~= seq!["controls"@]);
    let mut out: Vec<Keybind> = Vec::new();
    let mut dropped: Vec<i64> = Vec::new();
    let table = match config.deep_query(path.as_slice()) {
        Some(v) => v.as_table(),
        None => None,
    };
    match table {
        None => {
            assert(vk_views(out@) =~= Seq::<KeybindView>::empty());
        },
        Some(entries) => {
            let mut i: usize = 0;
            assert(dropped@ =~= table_vk_dropped(entries@.take(0)));
            while i < entries.len()
                invariant
                    i <= entries@.len(),
                    vk_views(out@) =~= table_vk_keybinds(entries@.take(i as int), callback),
                    dropped@ == table_vk_dropped(entries@.take(i as int)),
                decreases entries@.len() - i,
            {
                let codes = codes_from_value(&entries[i].1, &mut dropped);
                let ghost before = out@;
                out.push(Keybind { action: entries[i].0.clone(), bind: codes, callback });
                proof {
                    assert(vk_views(out@) =~= vk_views(before).push(out@.last()@));
                    assert(entries@.take(i + 1) =~= entries@.take(i as int).push(entries@[i as int]));
                    assert(entries@.take(i + 1).drop_last() =~= entries@.take(i as int));
                }
                i = i + 1;
            }
            assert(entries@.take(entries@.len() as int) =~= entries@);
        },
    }
    (out, dropped)
}

/// Bindings ordered from the most codes to the fewest.
pub open spec fn vk_sorted_by_len_desc(s: Seq<KeybindView>) -> bool {
    forall|i: int, j: int| 0 <= i < j < s.len() ==> s[i].bind.len() >= s[j].bind.len()
}

fn longest_bind(binds: &Vec<Keybind>) -> (r: usize)
    requires
        binds@.len() > 0,
    ensures
        r < binds@.len(),
        forall|j: int| 0 <= j < binds@.len() ==> binds@[j].bind@.len() <= binds@[r as int].bind@.len(),
{
    let mut best: usize = 0;
    let mut i: usize = 1;
    while i < binds.len()
        invariant
            1 <= i <= binds@.len(),
            best < i,
            forall|j: int| 0 <= j < i ==> binds@[j].bind@.len() <= binds@[best as int].bind@.len(),
        decreases binds@.len() - i,
    {
        if binds[i].bind.len() > binds[best].bind.len() {
            best = i;
        }
        i = i + 1;
    }
    best
}

/// Orders bindings from the most codes to the fewest; bindings with as many codes come in no
/// particular order.
pub fn sort_vk_by_bind_len(binds: Vec<Keybind>) -> (r: Vec<Keybind>)
    ensures
        vk_views(r@).to_multiset() == vk_views(binds@).to_multiset(),
        vk_sorted_by_len_desc(vk_views(r@)),
{
    let ghost initial = vk_views(binds@);
    let mut rest = binds;
    let mut out: Vec<Keybind> = Vec::new();
    assert(vk_views(out@).to_multiset() =~= vstd::multiset::Multiset::empty()) by {
        vk_views(out@).to_multiset_ensures();
    }
    while rest.len() > 0
        invariant
            vk_views(out@).to_multiset().add(vk_views(rest@).to_multiset()) == initial.to_multiset(),
            vk_sorted_by_len_desc(vk_views(out@)),
            forall|i: int, j: int|
                0 <= i < out@.len() && 0 <= j < rest@.len() ==> out@[i].bind@.len()
                    >= rest@[j].bind@.len(),
        decreases rest@.len(),
    {
        let m = longest_bind(&rest);
        let ghost before_rest = rest@;
        let ghost before_out = out@;
        let item = rest.remove(m);
        proof {
            assert(vk_views(rest@) =~= vk_views(before_rest).remove(m as int));
            assert(vk_views(before_rest)[m as int] == item@);
        }
        out.push(item);
        proof {
            assert(vk_views(out@) =~= vk_views(before_out).push(item@));
            let ms_out = vk_views(before_out).to_multiset();
            let ms_rest = vk_views(before_rest).to_multiset();
            vk_views(before_out).to_multiset_ensures();
            vk_views(before_rest).to_multiset_ensures();
            assert(vk_views(before_out).push(item@).to_multiset() =~= ms_out.insert(item@));
            assert(vk_views(before_rest).remove(m as int).to_multiset() =~= ms_rest.remove(
                vk_views(before_rest)[m as int],
            ));
            assert(ms_rest.count(item@) > 0) by {
                assert(vk_views(before_rest).contains(item@));
            }
            assert(ms_out.insert(item@).add(ms_rest.remove(item@)) =~= ms_out.add(ms_rest));
            assert forall|i: int, j: int|
                0 <= i < out@.len() && 0 <= j < rest@.len() implies out@[i].bind@.len()
                >= rest@[j].bind@.len() by {
                if j < m {
                    assert(rest@[j] == before_rest[j]);
                } else {
                    assert(rest@[j] == before_rest[j + 1]);
                }
                if i < before_out.len() {
                    assert(out@[i] == before_out[i]);
                }
            }
            assert forall|i: int, j: int|
                0 <= i < j < vk_views(out@).len() implies vk_views(out@)[i].bind.len()
                >= vk_views(out@)[j].bind.len() by {
                assert(vk_views(out@)[i].bind.len() == out@[i].bind@.len());
                assert(vk_views(out@)[j].bind.len() == out@[j].bind@.len());
                if j == before_out.len() {
                    assert(out@[i] == before_out[i]);
                } else {
                    assert(vk_views(out@)[i] == vk_views(before_out)[i]);
                    assert(vk_views(out@)[j] == vk_views(before_out)[j]);
                }
            }
        }
    }
    assert(vk_views(rest@).to_multiset() =~= vstd::multiset::Multiset::empty()) by {
        vk_views(rest@).to_multiset_ensures();
    }
    assert(vk_views(out@).to_multiset().add(vstd::multiset::Multiset::empty())
        =~= vk_views(out@).to_multiset());
    out
}

/// The bindings collected from every section, and the final list once the player is in the
/// world.
pub struct VkRegistry {
    pub buffer: Vec<Keybind>,
    pub keybinds: Option<Vec<Keybind>>,
}

impl VkRegistry {
    /// A registry with nothing collected and nothing finalised.
    pub fn new() -> (r: VkRegistry)
        ensures
            r.buffer@.len() == 0,
            r.keybinds is None,
    {
        VkRegistry { buffer: Vec::new(), keybinds: None }
    }
}

/// Registers the bindings of a configuration section, ordered from the most codes to the
/// fewest, after those already collected. Returns the integers that were left out of the
/// bindings because they do not fit in an `i32`, in order, for the caller to report.
pub fn register_bindings(registry: &mut VkRegistry, config: &Config, callback: Callback) -> (r: Vec<i64>)
    ensures
        final(registry).keybinds == old(registry).keybinds,
        final(registry).buffer@.len() == old(registry).buffer@.len() + built_vk_keybinds(
            *config,
            callback,
        ).len(),
        vk_views(final(registry).buffer@).take(old(registry).buffer@.len() as int) == vk_views(
            old(registry).buffer@,
        ),
        ({
            let added = vk_views(final(registry).buffer@).skip(old(registry).buffer@.len() as int);
            &&& added.to_multiset() == built_vk_keybinds(*config, callback).to_multiset()
            &&& vk_sorted_by_len_desc(added)
        }),
        r@ == built_vk_dropped(*config),
{
    broadcast use vstd::seq_lib::group_to_multiset_ensures;

    let (built, dropped) = build_vk_keybinds(config, callback);
    let ghost built_views = vk_views(built@);
    let mut sorted = sort_vk_by_bind_len(built);
    proof {
        built_views.to_multiset_ensures();
        vk_views(sorted@).to_multiset_ensures();
        assert(vk_views(sorted@).len() == built_views.len());
    }
    let ghost before = registry.buffer@;
    let ghost added = sorted@;
    registry.buffer.append(&mut sorted);
    assert(vk_views(registry.buffer@) =~= vk_views(before) + vk_views(added));
    assert(vk_views(registry.buffer@).take(before.len() as int) =~= vk_views(before));
    assert(vk_views(registry.buffer@).skip(before.len() as int) =~= vk_views(added));
    dropped
}

/// Finalises the bindings once the player is in the world; the final list is never replaced.
pub fn frame_begin(registry: &mut VkRegistry, world_present: bool)
    ensures
        world_present && old(registry).keybinds is None ==> (final(registry).keybinds matches Some(
            k,
        ) && vk_views(k@) == vk_views(old(registry).buffer@) && final(registry).buffer@.len()
            == 0),
        !(world_present && old(registry).keybinds is None) ==> final(registry).keybinds == old(
            registry,
        ).keybinds && final(registry).buffer@ == old(registry).buffer@,
{
    if world_present && registry.keybinds.is_none() {
        let mut taken: Vec<Keybind> = Vec::new();
        std::mem::swap(&mut taken, &mut registry.buffer);
        registry.keybinds = Some(taken);
    }
}

/// Whether key `code` counts as held: a key code (0x07 up to 0xFD) when it is down; the same
/// code plus 0x1000 when that key is up; any other code always. `key_down` holds, for each
/// key code, whether it is down; codes beyond it are up.
pub open spec fn vk_held_spec(code: i32, key_down: Seq<bool>) -> bool {
    if 0x07 <= code < 0xFE {
        code < key_down.len() && key_down[code as int]
    } else if 0x1007 <= code < 0x10FE {
        !(code - 0x1000 < key_down.len() && key_down[code - 0x1000])
    } else {
        true
    }
}

fn key_state(code: i32, key_down: &[bool]) -> (r: bool)
    requires
        code >= 0,
    ensures
        r == (code < key_down@.len() && key_down@[code as int]),
{
    let index = code as usize;
    index < key_down.len() && key_down[index]
}

/// Whether key `code` counts as held.
pub fn is_held(code: i32, key_down: &[bool]) -> (r: bool)
    ensures
        r == vk_held_spec(code, key_down@),
{
    if 0x07 <= code && code < 0xFE {
        return key_state(code, key_down);
    }
    if 0x1007 <= code && code < 0x10FE {
        return !key_state(code - 0x1000, key_down);
    }
    true
}

/// Whether a binding fires when key `code` goes down: it contains the key and all its keys
/// count as held.
pub open spec fn vk_fires_spec(bind: Seq<i32>, code: i32, key_down: Seq<bool>) -> bool {
    bind.contains(code) && forall|i: int| 0 <= i < bind.len() ==> vk_held_spec(#[trigger] bind[i], key_down)
}

/// The actions of the bindings that key `code` going down completes, in order.
pub open spec fn vk_fired_spec(binds: Seq<KeybindView>, code: i32, key_down: Seq<bool>) -> Seq<(Callback, Seq<char>)>
    decreases binds.len(),
{
    if binds.len() == 0 {
        Seq::empty()
    } else {
        let prev = vk_fired_spec(binds.drop_last(), code, key_down);
        if vk_fires_spec(binds.last().bind, code, key_down) {
            prev.push((binds.last().callback, binds.last().action))
        } else {
            prev
        }
    }
}

fn vk_fires(bind: &Vec<i32>, code: i32, key_down: &[bool]) -> (r: bool)
    ensures
        r == vk_fires_spec(bind@, code, key_down@),
{
    let mut contains = false;
    let mut all_held = true;
    let mut i: usize = 0;
    while i < bind.len()
        invariant
            i <= bind@.len(),
            contains == exists|j: int| 0 <= j < i && #[trigger] bind@[j] == code,
            all_held == forall|j: int| 0 <= j < i ==> vk_held_spec(#[trigger] bind@[j], key_down@),
        decreases bind@.len() - i,
    {
        if bind[i] == code {
            contains = true;
        }
        if !is_held(bind[i], key_down) {
            all_held = false;
        }
        i = i + 1;
    }
    contains && all_held
}

/// The actions that key `code` going down triggers: none before the bindings are finalised.
pub fn input(registry: &VkRegistry, code: i32, key_down: &[bool]) -> (r: Option<Vec<Dispatch>>)
    ensures
        registry.keybinds is None ==> r is None,
        registry.keybinds matches Some(k) ==> (r matches Some(d) && dispatch_views(d@)
            == vk_fired_spec(vk_views(k@), code, key_down@)),
{
    let binds = match &registry.keybinds {
        Some(k) => k,
        None => return None,
    };
    let ghost views = vk_views(binds@);
    let mut out: Vec<Dispatch> = Vec::new();
    let mut i: usize = 0;
    assert(dispatch_views(out@) =~= Seq::<(Callback, Seq<char>)>::empty());
    while i < binds.len()
        invariant
            i <= binds@.len(),
            views == vk_views(binds@),
            dispatch_views(out@) == vk_fired_spec(views.take(i as int), code, key_down@),
        decreases binds@.len() - i,
    {
        proof {
            assert(views.take(i + 1).drop_last() =~= views.take(i as int));
            assert(views.take(i + 1).last() == binds@[i as int]@);
        }
        if vk_fires(&binds[i].bind, code, key_down) {
            let ghost before = out@;
            out.push(Dispatch { callback: binds[i].callback, action: binds[i].action.clone() });
            assert(dispatch_views(out@) =~= dispatch_views(before).push(
                (binds@[i as int].callback, binds@[i as int].action@),
            ));
        }
        i = i + 1;
    }
    assert(views.take(binds@.len() as int) =~= views);
    Some(out)
}

/// Key `code` going down.
pub fn key_down_callback(registry: &VkRegistry, code: i32, key_down: &[bool]) -> (r: Option<Vec<Dispatch>>)
    ensures
        registry.keybinds is None ==> r is None,
        registry.keybinds matches Some(k) ==> (r matches Some(d) && dispatch_views(d@)
            == vk_fired_spec(vk_views(k@), code, key_down@)),
{
    input(registry, code, key_down)
}

/// Key `code` going up triggers nothing.
pub fn key_up_callback(code: i32) -> (r: Vec<Dispatch>)
    ensures
        r@.len() == 0,
{
    Vec::new()
}

/// A mouse button as the pointer layer names it.
#[derive(Clone, Copy, Debug, PartialEq, Eq, Structural)]
pub enum MouseButton {
    Left,
    Right,
    Middle,
    Unknown(u8),
}

/// A pointer event.
#[derive(Clone, Copy, Debug, PartialEq, Eq, Structural)]
pub enum MouseEvent {
    ButtonPress(MouseButton),
    ButtonRelease(MouseButton),
    Wheel { delta_x: i64, delta_y: i64 },
    Other,
}

/// The code of a mouse button, if it has one.
pub open spec fn button_code(button: MouseButton) -> Option<i32> {
    match button {
        MouseButton::Middle => Some(MIDDLE),
        MouseButton::Left => Some(LEFT),
        MouseButton::Right => Some(RIGHT),
        MouseButton::Unknown(1) => Some(M4),
        MouseButton::Unknown(2) => Some(M5),
        _ => None,
    }
}

/// The codes that go down on a pointer event: a pressed button's code, and for a wheel turn
/// up, down, right and left in that order as its deltas say. Releases and other events give
/// none.
pub open spec fn pointer_codes(event: MouseEvent) -> Seq<i32> {
    match event {
        MouseEvent::ButtonPress(b) => match button_code(b) {
            Some(c) => seq![c],
            None => Seq::empty(),
        },
        MouseEvent::Wheel { delta_x, delta_y } => {
            let up: Seq<i32> = if delta_y > 0 { seq![SCROLL_UP] } else { Seq::empty() };
            let down: Seq<i32> = if delta_y < 0 { seq![SCROLL_DOWN] } else { Seq::empty() };
            let right: Seq<i32> = if delta_x > 0 { seq![SCROLL_RIGHT] } else { Seq::empty() };
            let left: Seq<i32> = if delta_x < 0 { seq![SCROLL_LEFT] } else { Seq::empty() };
            up + down + right + left
        },
        _ => Seq::empty(),
    }
}

/// The codes that go down on a pointer event, in order.
pub fn rdev_callback(event: MouseEvent) -> (r: Vec<i32>)
    ensures
        r@ == pointer_codes(event),
{
    let mut out: Vec<i32> = Vec::new();
    match event {
        MouseEvent::ButtonPress(b) => {
            match b {
                MouseButton::Middle => out.push(MIDDLE),
                MouseButton::Left => out.push(LEFT),
                MouseButton::Right => out.push(RIGHT),
                MouseButton::Unknown(1) => out.push(M4),
                MouseButton::Unknown(2) => out.push(M5),
                _ => {},
            }
            assert(out@ =~= pointer_codes(event));
        },
        MouseEvent::Wheel { delta_x, delta_y } => {
            if delta_y > 0 {
                out.push(SCROLL_UP);
            }
            if delta_y < 0 {
                out.push(SCROLL_DOWN);
            }
            if delta_x > 0 {
                out.push(SCROLL_RIGHT);
            }
            if delta_x < 0 {
                out.push(SCROLL_LEFT);
            }
            assert(out@ =~= pointer_codes(event));
        },
        _ => {
            assert(out@ =~= pointer_codes(event));
        },
    }
    out
}

} // verus!
