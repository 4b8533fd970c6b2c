//! Key bindings: how a binding text such as `"^LShift _m1"` is read into keys with a required
//! state, and how the bindings of a configuration section are collected and ordered.
use vstd::prelude::*;
use crate::settings::{ConfigValue, Config, deep_query_spec, path_view};
use crate::text::{split_spaces, split_spaces_spec, string_views, str_eq};

verus! {

/// The state a key is required to be in, or is reported in.
#[derive(Clone, Copy, Debug, PartialEq, Eq, Hash, Structural)]
pub enum KeyState {
    Released,
    Pressed,
    NotHeld,
    Held,
}

impl Default for KeyState {
    /// A key is required to be held unless a modifier says otherwise.
    fn default() -> (r: KeyState)
        ensures
            r == KeyState::Held,
    {
        KeyState::Held
    }
}

/// A modifier written before a key name.
#[derive(Clone, Copy, Debug, PartialEq, Eq, Hash, Structural)]
pub enum Modifier {
    KeyState(KeyState),
    Unknown,
}

/// The modifiers of a key: `^` released, `_` pressed, `!` not held, held by default.
#[derive(Clone, Copy, Debug, PartialEq, Eq, Hash, Structural)]
pub struct Modifiers {
    pub key_state: KeyState,
}

impl Default for Modifiers {
    fn default() -> (r: Modifiers)
        ensures
            r.key_state == KeyState::Held,
    {
        Modifiers { key_state: KeyState::Held }
    }
}

/// The key state a modifier character stands for.
pub open spec fn modifier_of(c: char) -> Option<KeyState> {
    if c == '^' {
        Some(KeyState::Released)
    } else if c == '_' {
        Some(KeyState::Pressed)
    } else if c == '!' {
        Some(KeyState::NotHeld)
    } else {
        None
    }
}

/// The key state of a modifier text: that of its first modifier character, held when it has
/// none.
pub open spec fn modifier_state(s: Seq<char>) -> KeyState
    decreases s.len(),
{
    if s.len() == 0 {
        KeyState::Held
    } else {
        match modifier_of(s[0]) {
            Some(k) => k,
            None => modifier_state(s.drop_first()),
        }
    }
}

impl Modifiers {
    /// Reads the modifiers of a key from the characters that are not part of its name.
    pub fn parse(modifier_string: &str) -> (r: Modifiers)
        ensures
            r.key_state == modifier_state(modifier_string@),
    {
        let n = modifier_string.unicode_len();
        let mut i: usize = 0;
        assert(modifier_string@.skip(0) =~= modifier_string@);
        while i < n
            invariant
                n == modifier_string@.len(),
                i <= n,
                modifier_state(modifier_string@) == modifier_state(modifier_string@.skip(i as int)),
            decreases n - i,
        {
            let c = modifier_string.get_char(i);
            assert(modifier_string@.skip(i as int)[0] == c);
            assert(modifier_string@.skip(i as int).drop_first() =~= modifier_string@.skip(i + 1));
            if c == '^' {
                return Modifiers { key_state: KeyState::Released };
            } else if c == '_' {
                return Modifiers { key_state: KeyState::Pressed };
            } else if c == '!' {
                return Modifiers { key_state: KeyState::NotHeld };
            }
            i = i + 1;
        }
        assert(modifier_string@.skip(n as int) =~= Seq::<char>::empty());
        Modifiers { key_state: KeyState::Held }
    }
}

/// Whether a character is alphabetic or numeric, as `char::is_alphanumeric` decides.
pub uninterp spec fn alphanumeric(c: char) -> bool;

/// Calls `char::is_alphanumeric`; claims only that its answer is a function of the character.
#[verifier::external_body]
fn is_alphanumeric(c: char) -> (r: bool)
    ensures
        r == alphanumeric(c),
{
    c.is_alphanumeric()
}

/// Whether a character belongs to a key's name rather than to its modifiers.
pub open spec fn is_key_char(c: char) -> bool {
    alphanumeric(c) || c == ':' || c == '{' || c == '}' || c == '"' || c == '='
}

/// The test for name characters.
pub open spec fn key_chars() -> spec_fn(char) -> bool {
    |c: char| is_key_char(c)
}

/// The test for modifier characters.
pub open spec fn modifier_chars() -> spec_fn(char) -> bool {
    |c: char| !is_key_char(c)
}

/// Splits a key text into its name characters and its modifier characters, each kept in order.
pub fn split_key_text(key_string: &str) -> (r: (String, String))
    ensures
        r.0@ == key_string@.filter(key_chars()),
        r.1@ == key_string@.filter(modifier_chars()),
{
    let n = key_string.unicode_len();
    let mut name = String::new();
    let mut modifiers = String::new();
    let mut i: usize = 0;
    while i < n
        invariant
            n == key_string@.len(),
            i <= n,
            name@ == key_string@.take(i as int).filter(key_chars()),
            modifiers@ == key_string@.take(i as int).filter(modifier_chars()),
        decreases n - i,
    {
        let c = key_string.get_char(i);
        let ghost pre = key_string@.take(i as int);
        proof {
            assert(key_string@.take(i + 1) =~= pre.push(c));
            pre.lemma_filter_push(c, key_chars());
            pre.lemma_filter_push(c, modifier_chars());
        }
        let one = key_string.substring_char(i, i + 1);
        assert(one@ =~= seq![c]);
        if is_alphanumeric(c) || c == ':' || c == '{' || c == '}' || c == '"' || c == '=' {
            let ghost before = name@;
            name.append(one);
            assert(name@ =~= before.push(c));
        } else {
            let ghost before = modifiers@;
            modifiers.append(one);
            assert(modifiers@ =~= before.push(c));
        }
        i = i + 1;
    }
    assert(key_string@.take(n as int) =~= key_string@);
    (name, modifiers)
}

/// A key's name: one the keyboard layer knows as a key code, or any other input name (mouse
/// buttons, scrolling).
#[derive(Clone, Debug, PartialEq, Eq, Hash)]
pub enum KeyName {
    Keycode(String),
    Other(String),
}

/// The abstract value of a key name.
pub enum KeyNameView {
    Keycode(Seq<char>),
    Other(Seq<char>),
}

impl View for KeyName {
    type V = KeyNameView;

    open spec fn view(&self) -> KeyNameView {
        match self {
            KeyName::Keycode(s) => KeyNameView::Keycode(s@),
            KeyName::Other(s) => KeyNameView::Other(s@),
        }
    }
}

/// The text of a key name.
pub open spec fn name_text(n: KeyNameView) -> Seq<char> {
    match n {
        KeyNameView::Keycode(s) => s,
        KeyNameView::Other(s) => s,
    }
}

/// The key name of `text`: a key code when `keycodes` lists it, another input name otherwise.
pub open spec fn name_spec(text: Seq<char>, keycodes: Seq<Seq<char>>) -> KeyNameView {
    if keycodes.contains(text) {
        KeyNameView::Keycode(text)
    } else {
        KeyNameView::Other(text)
    }
}

/// Whether `list` holds a string equal to `s`.
pub fn contains_text(list: &[String], s: &str) -> (r: bool)
    ensures
        r == string_views(list@).contains(s@),
{
    let mut i: usize = 0;
    while i < list.len()
        invariant
            i <= list@.len(),
            forall|j: int| 0 <= j < i ==> list@[j]@ != s@,
        decreases list@.len() - i,
    {
        if str_eq(list[i].as_str(), s) {
            assert(string_views(list@)[i as int] == s@);
            return true;
        }
        i = i + 1;
    }
    assert forall|j: int| 0 <= j < string_views(list@).len() implies string_views(list@)[j] != s@ by {
        assert(string_views(list@)[j] == list@[j]@);
    }
    false
}

impl KeyName {
    /// The key name of `value`. `keycodes` are the texts that the keyboard layer recognises as
    /// key codes (among those that may be asked about).
    pub fn parse(value: &str, keycodes: &[String]) -> (r: KeyName)
        ensures
            r@ == name_spec(value@, string_views(keycodes@)),
    {
        if contains_text(keycodes, value) {
            KeyName::Keycode(String::from_str(value))
        } else {
            KeyName::Other(String::from_str(value))
        }
    }

    /// Whether two key names are the same.
    pub fn same(&self, other: &KeyName) -> (r: bool)
        ensures
            r == (self@ == other@),
    {
        match (self, other) {
            (KeyName::Keycode(a), KeyName::Keycode(b)) => str_eq(a.as_str(), b.as_str()),
            (KeyName::Other(a), KeyName::Other(b)) => str_eq(a.as_str(), b.as_str()),
            _ => false,
        }
    }

    /// A copy of the key name.
    pub fn duplicate(&self) -> (r: KeyName)
        ensures
            r@ == self@,
    {
        match self {
            KeyName::Keycode(s) => KeyName::Keycode(s.clone()),
            KeyName::Other(s) => KeyName::Other(s.clone()),
        }
    }

    /// The text of the key name.
    pub fn text(&self) -> (r: &str)
        ensures
            r@ == name_text(self@),
    {
        match self {
            KeyName::Keycode(s) => s.as_str(),
            KeyName::Other(s) => s.as_str(),
        }
    }
}

/// A key going down or up: its name and whether it was pressed or released.
#[derive(Clone, Debug, PartialEq, Eq, Hash)]
pub struct KeyEvent {
    pub name: KeyName,
    pub state: KeyState,
}

/// The abstract value of a key event.
pub struct KeyEventView {
    pub name: KeyNameView,
    pub state: KeyState,
}

impl View for KeyEvent {
    type V = KeyEventView;

    open spec fn view(&self) -> KeyEventView {
        KeyEventView { name: self.name@, state: self.state }
    }
}

/// The event state that corresponds to a required key state: released for released and not
/// held, pressed for pressed and held.
pub open spec fn state_match_spec(input: KeyState) -> KeyState {
    match input {
        KeyState::Released | KeyState::NotHeld => KeyState::Released,
        KeyState::Pressed | KeyState::Held => KeyState::Pressed,
    }
}

impl KeyEvent {
    /// The event state that corresponds to a required key state.
    pub fn state_match(input: KeyState) -> (r: KeyState)
        ensures
            r == state_match_spec(input),
            r == KeyState::Pressed || r == KeyState::Released,
    {
        match input {
            KeyState::Released | KeyState::NotHeld => KeyState::Released,
            KeyState::Pressed | KeyState::Held => KeyState::Pressed,
        }
    }
}

/// A key of a binding: its modifiers, its name, and the event that matches it.
#[derive(Clone, Debug, PartialEq, Eq, Hash)]
pub struct Key {
    pub modifiers: Modifiers,
    pub name: KeyName,
    pub event: KeyEvent,
}

/// The abstract value of a key.
pub struct KeyView {
    pub key_state: KeyState,
    pub name: KeyNameView,
    pub event: KeyEventView,
}

impl View for Key {
    type V = KeyView;

    open spec fn view(&self) -> KeyView {
        KeyView { key_state: self.modifiers.key_state, name: self.name@, event: self.event@ }
    }
}

/// The key a key text stands for: the name characters give the name, the other characters
/// the required state.
pub open spec fn key_spec(key_string: Seq<char>, keycodes: Seq<Seq<char>>) -> KeyView {
    let name = name_spec(key_string.filter(key_chars()), keycodes);
    let state = modifier_state(key_string.filter(modifier_chars()));
    KeyView {
        key_state: state,
        name: name,
        event: KeyEventView { name: name, state: state_match_spec(state) },
    }
}

/// The event that matches a key has the key's name and is always a press or a release: a
/// press for keys required pressed or held, a release for keys required released or not held.
pub proof fn law_key_event(key_string: Seq<char>, keycodes: Seq<Seq<char>>)
    ensures
        ({
            let k = key_spec(key_string, keycodes);
            &&& k.event.name == k.name
            &&& k.event.state == KeyState::Pressed || k.event.state == KeyState::Released
            &&& (k.event.state == KeyState::Pressed) == (k.key_state == KeyState::Pressed
                || k.key_state == KeyState::Held)
        }),
{
}

impl Key {
    /// Reads a key text such as `"^LShift"`.
    pub fn parse(key_string: &str, keycodes: &[String]) -> (r: Key)
        ensures
            r@ == key_spec(key_string@, string_views(keycodes@)),
    {
        let (stripped_key, stripped_modifiers) = split_key_text(key_string);
        let modifiers = Modifiers::parse(stripped_modifiers.as_str());
        let name = KeyName::parse(stripped_key.as_str(), keycodes);
        let event_name = name.duplicate();
        Key {
            modifiers,
            name,
            event: KeyEvent { name: event_name, state: KeyEvent::state_match(modifiers.key_state) },
        }
    }
}

/// The action function a binding calls.
#[derive(Clone, Copy, Debug, PartialEq, Eq, Structural)]
pub enum Callback {
    ActionReader,
    SpellSelector,
}

/// A binding: the action performed when all its keys match.
#[derive(Clone, Debug, PartialEq, Eq)]
pub struct Keybind {
    pub action: String,
    pub callback: Callback,
    pub bind: Vec<Key>,
}

/// The abstract value of a binding.
pub struct KeybindView {
    pub action: Seq<char>,
    pub callback: Callback,
    pub bind: Seq<KeyView>,
}

/// The abstract values of a list of keys.
pub open spec fn key_views(keys: Seq<Key>) -> Seq<KeyView> {
    keys.map_values(|k: Key| k@)
}

impl View for Keybind {
    type V = KeybindView;

    open spec fn view(&self) -> KeybindView {
        KeybindView { action: self.action@, callback: self.callback, bind: key_views(self.bind@) }
    }
}

/// The abstract values of a list of bindings.
pub open spec fn keybind_views(binds: Seq<Keybind>) -> Seq<KeybindView> {
    binds.map_values(|k: Keybind| k@)
}

/// The keys of one binding text: its pieces between spaces, each read as a key. A value that
/// is not a string counts as the empty text.
pub open spec fn keys_of(bind: ConfigValue, keycodes: Seq<Seq<char>>) -> Seq<KeyView> {
    let text = match bind {
        ConfigValue::String(s) => s@,
        _ => Seq::empty(),
    };
    split_spaces_spec(text).map_values(|piece: Seq<char>| key_spec(piece, keycodes))
}

/// The bindings of one action: one for each element of its array of binding texts, none when
/// it has no array.
pub open spec fn entry_keybinds(
    action: Seq<char>,
    binds: ConfigValue,
    callback: Callback,
    keycodes: Seq<Seq<char>>,
) -> Seq<KeybindView> {
    match binds {
        ConfigValue::Array(elements) => elements@.map_values(
            |e: ConfigValue|
                KeybindView { action: action, callback: callback, bind: keys_of(e, keycodes) },
        ),
        _ => Seq::empty(),
    }
}

/// The bindings of all actions of a controls table, action by action.
pub open spec fn table_keybinds(
    entries: Seq<(String, ConfigValue)>,
    callback: Callback,
    keycodes: Seq<Seq<char>>,
) -> Seq<KeybindView>
    decreases entries.len(),
{
    if entries.len() == 0 {
        Seq::empty()
    } else {
        table_keybinds(entries.drop_last(), callback, keycodes) + entry_keybinds(
            entries.last().0@,
            entries.last().1,
            callback,
            keycodes,
        )
    }
}

/// The bindings that a configuration section declares under `controls`.
pub open spec fn built_keybinds(config: Config, callback: Callback, keycodes: Seq<Seq<char>>) -> Seq<
    KeybindView,
> {
    match deep_query_spec(config, seq!["controls"@]) {
        Some(ConfigValue::Table(entries)) => table_keybinds(entries@, callback, keycodes),
        _ => Seq::empty(),
    }
}

fn keys_from_value(bind: &ConfigValue, keycodes: &[String]) -> (r: Vec<Key>)
    ensures
        key_views(r@) == keys_of(*bind, string_views(keycodes@)),
{
    let pieces = match bind.as_str() {
        Some(s) => split_spaces(s),
        None => split_spaces(""),
    };
    proof {
        reveal_strlit("");
        assert(""@ =~= Seq::<char>::empty());
    }
    let ghost kc = string_views(keycodes@);
    let ghost f = |piece: Seq<char>| key_spec(piece, kc);
    let mut keys: Vec<Key> = Vec::new();
    let mut i: usize = 0;
    while i < pieces.len()
        invariant
            i <= pieces@.len(),
            kc == string_views(keycodes@),
            f == (|piece: Seq<char>| key_spec(piece, kc)),
            key_views(keys@) =~= string_views(pieces@).take(i as int).map_values(f),
        decreases pieces@.len() - i,
    {
        let key = Key::parse(pieces[i].as_str(), keycodes);
        let ghost before = keys@;
        keys.push(key);
        proof {
            assert(key_views(keys@) =~= key_views(before).push(key@));
            assert(string_views(pieces@).take(i + 1) =~= string_views(pieces@).take(i as int).push(
                pieces@[i as int]@,
            ));
        }
        i = i + 1;
    }
    assert(string_views(pieces@).take(pieces@.len() as int) =~= string_views(pieces@));
    keys
}

fn append_entry_keybinds(
    out: &mut Vec<Keybind>,
    action: &String,
    binds: &ConfigValue,
    callback: Callback,
    keycodes: &[String],
)
    ensures
        keybind_views(final(out)@) == keybind_views(old(out)@) + entry_keybinds(
            action@,
            *binds,
            callback,
            string_views(keycodes@),
        ),
{
    match binds.as_array() {
        None => {
            assert(keybind_views(out@) =~= keybind_views(out@) + Seq::<KeybindView>::empty());
        },
        Some(elements) => {
            let ghost kc = string_views(keycodes@);
            let ghost start = keybind_views(out@);
            let ghost f = |e: ConfigValue|
                KeybindView { action: action@, callback: callback, bind: keys_of(e, kc) };
            let mut i: usize = 0;
            while i < elements.len()
                invariant
                    i <= elements@.len(),
                    kc == string_views(keycodes@),
                    f == (|e: ConfigValue|
                        KeybindView { action: action@, callback: callback, bind: keys_of(e, kc) }),
                    keybind_views(out@) =~= start + elements@.take(i as int).map_values(f),
                decreases elements@.len() - i,
            {
                let keys = keys_from_value(&elements[i], keycodes);
                let ghost before = out@;
                out.push(Keybind { action: action.clone(), callback, bind: keys });
                proof {
                    assert(keybind_views(out@) =~= keybind_views(before).push(f(elements@[i as int])));
                    assert(elements@.take(i + 1) =~= elements@.take(i as int).push(elements@[i as int]));
                }
                i = i + 1;
            }
            assert(elements@.take(elements@.len() as int) =~= elements@);
        },
    }
}

/// Collects the bindings that a configuration section declares, action by action.
pub fn build_keybinds(config: &Config, callback: Callback, keycodes: &[String]) -> (r: Vec<Keybind>)
    ensures
        keybind_views(r@) == built_keybinds(*config, callback, string_views(keycodes@)),
{
    let mut path: Vec<&str> = Vec::new();
    path.push("controls");
    assert(path_view(path@) =~= seq!["controls"@]);
    let mut out: Vec<Keybind> = Vec::new();
    let table = match config.deep_query(path.as_slice()) {
        Some(v) => v.as_table(),
        None => None,
    };
    match table {
        None => {
            assert(keybind_views(out@) =~= Seq::<KeybindView>::empty());
        },
        Some(entries) => {
            let ghost kc = string_views(keycodes@);
            let mut i: usize = 0;
            assert(keybind_views(out@) =~= Seq::<KeybindView>::empty());
            while i < entries.len()
                invariant
                    i <= entries@.len(),
                    kc == string_views(keycodes@),
                    keybind_views(out@) == table_keybinds(entries@.take(i as int), callback, kc),
                decreases entries@.len() - i,
            {
                proof {
                    assert(entries@.take(i + 1).drop_last() =~= entries@.take(i as int));
                }
                append_entry_keybinds(&mut out, &entries[i].0, &entries[i].1, callback, keycodes);
                i = i + 1;
            }
            assert(entries@.take(entries@.len() as int) =~= entries@);
        },
    }
    out
}

/// Bindings ordered from the most keys to the fewest.
pub open spec fn sorted_by_len_desc(s: Seq<KeybindView>) -> bool {
    forall|i: int, j: int| 0 <= i < j < s.len() ==> s[i].bind.len() >= s[j].bind.len()
}

fn longest_bind(binds: &Vec<Keybind>) -> (r: usize)
    requires
        binds@.len() > 0,
    ensures
        r < binds@.len(),
        forall|j: int| 0 <= j < binds@.len() ==> binds@[j].bind@.len() <= binds@[r as int].bind@.len(),
{
    let mut best: usize = 0;
    let mut i: usize = 1;
    while i < binds.len()
        invariant
            1 <= i <= binds@.len(),
            best < i,
            forall|j: int| 0 <= j < i ==> binds@[j].bind@.len() <= binds@[best as int].bind@.len(),
        decreases binds@.len() - i,
    {
        if binds[i].bind.len() > binds[best].bind.len() {
            best = i;
        }
        i = i + 1;
    }
    best
}

/// Orders bindings from the most keys to the fewest; bindings with as many keys come in no
/// particular order.
pub fn sort_by_bind_len(binds: Vec<Keybind>) -> (r: Vec<Keybind>)
    ensures
        keybind_views(r@).to_multiset() == keybind_views(binds@).to_multiset(),
        sorted_by_len_desc(keybind_views(r@)),
{
    broadcast use vstd::seq_lib::group_to_multiset_ensures;

    let ghost initial = keybind_views(binds@);
    let mut rest = binds;
    let mut out: Vec<Keybind> = Vec::new();
    assert(keybind_views(out@).to_multiset() =~= vstd::multiset::Multiset::empty());
    while rest.len() > 0
        invariant
            keybind_views(out@).to_multiset().add(keybind_views(rest@).to_multiset())
                == initial.to_multiset(),
            sorted_by_len_desc(keybind_views(out@)),
            forall|i: int, j: int|
                0 <= i < out@.len() && 0 <= j < rest@.len() ==> out@[i].bind@.len()
                    >= rest@[j].bind@.len(),
        decreases rest@.len(),
    {
        let m = longest_bind(&rest);
        let ghost before_rest = rest@;
        let ghost before_out = out@;
        let item = rest.remove(m);
        proof {
            assert(keybind_views(rest@) =~= keybind_views(before_rest).remove(m as int));
            assert(keybind_views(before_rest)[m as int] == item@);
        }
        out.push(item);
        proof {
            assert(keybind_views(out@) =~= keybind_views(before_out).push(item@));
            let ms_out = keybind_views(before_out).to_multiset();
            let ms_rest = keybind_views(before_rest).to_multiset();
            keybind_views(before_out).to_multiset_ensures();
            keybind_views(before_rest).to_multiset_ensures();
            assert(keybind_views(before_out).push(item@).to_multiset() =~= ms_out.insert(item@));
            assert(keybind_views(before_rest).remove(m as int).to_multiset() =~= ms_rest.remove(
                keybind_views(before_rest)[m as int],
            ));
            assert(keybind_views(out@).to_multiset() =~= ms_out.insert(item@));
            assert(keybind_views(rest@).to_multiset() =~= ms_rest.remove(item@));
            assert(ms_rest.count(item@) > 0) by {
                assert(keybind_views(before_rest)[m as int] == item@);
                assert(keybind_views(before_rest).contains(item@));
            }
            assert(ms_out.insert(item@).add(ms_rest.remove(item@)) =~= ms_out.add(ms_rest));
            assert forall|i: int, j: int|
                0 <= i < out@.len() && 0 <= j < rest@.len() implies out@[i].bind@.len()
                >= rest@[j].bind@.len() by {
                if j < m {
                    assert(rest@[j] == before_rest[j]);
                } else {
                    assert(rest@[j] == before_rest[j + 1]);
                }
                if i < before_out.len() {
                    assert(out@[i] == before_out[i]);
                }
            }
            assert forall|i: int, j: int|
                0 <= i < j < keybind_views(out@).len() implies keybind_views(out@)[i].bind.len()
                >= keybind_views(out@)[j].bind.len() by {
                assert(keybind_views(out@)[i].bind.len() == out@[i].bind@.len());
                assert(keybind_views(out@)[j].bind.len() == out@[j].bind@.len());
                if j == before_out.len() {
                    assert(out@[i] == before_out[i]);
                } else {
                    assert(keybind_views(out@)[i] == keybind_views(before_out)[i]);
                    assert(keybind_views(out@)[j] == keybind_views(before_out)[j]);
                }
            }
        }
    }
    assert(keybind_views(rest@).to_multiset() =~= vstd::multiset::Multiset::empty());
    assert(keybind_views(out@).to_multiset().add(vstd::multiset::Multiset::empty())
        =~= keybind_views(out@).to_multiset());
    out
}

/// The bindings collected from every section, and the final list that input is matched
/// against once the player is in the world.
pub struct KeybindRegistry {
    pub buffer: Vec<Keybind>,
    pub keybinds: Option<Vec<Keybind>>,
}

impl KeybindRegistry {
    /// A registry with no binding collected and none finalised.
    pub fn new() -> (r: KeybindRegistry)
        ensures
            r.buffer@.len() == 0,
            r.keybinds is None,
    {
        KeybindRegistry { buffer: Vec::new(), keybinds: None }
    }
}

/// Registers the bindings of a configuration section, ordered from the most keys to the
/// fewest, after those already collected. `keycodes` are the key texts that the keyboard
/// layer recognises as key codes.
pub fn register_bindings(
    registry: &mut KeybindRegistry,
    config: &Config,
    callback: Callback,
    keycodes: &[String],
)
    ensures
        final(registry).keybinds == old(registry).keybinds,
        final(registry).buffer@.len() == old(registry).buffer@.len() + built_keybinds(
            *config,
            callback,
            string_views(keycodes@),
        ).len(),
        keybind_views(final(registry).buffer@).take(old(registry).buffer@.len() as int)
            == keybind_views(old(registry).buffer@),
        ({
            let added = keybind_views(final(registry).buffer@).skip(
                old(registry).buffer@.len() as int,
            );
            &&& added.to_multiset() == built_keybinds(
                *config,
                callback,
                string_views(keycodes@),
            ).to_multiset()
            &&& sorted_by_len_desc(added)
        }),
{
    broadcast use vstd::seq_lib::group_to_multiset_ensures;

    let built = build_keybinds(config, callback, keycodes);
    let ghost built_views = keybind_views(built@);
    let mut sorted = sort_by_bind_len(built);
    proof {
        built_views.to_multiset_ensures();
        keybind_views(sorted@).to_multiset_ensures();
        assert(keybind_views(sorted@).len() == built_views.len());
    }
    let ghost before = registry.buffer@;
    let ghost added = sorted@;
    registry.buffer.append(&mut sorted);
    assert(keybind_views(registry.buffer@) =~= keybind_views(before) + keybind_views(added));
    assert(keybind_views(registry.buffer@).take(before.len() as int) =~= keybind_views(before));
    assert(keybind_views(registry.buffer@).skip(before.len() as int) =~= keybind_views(added));
}

/// Finalises the bindings once the player is in the world: the collected bindings become the
/// final list, which is never replaced afterwards.
pub fn frame_begin(registry: &mut KeybindRegistry, world_present: bool)
    ensures
        world_present && old(registry).keybinds is None ==> (final(registry).keybinds matches Some(
            k,
        ) && keybind_views(k@) == keybind_views(old(registry).buffer@)
            && final(registry).buffer@.len() == 0),
        !(world_present && old(registry).keybinds is None) ==> final(registry).keybinds == old(
            registry,
        ).keybinds && final(registry).buffer@ == old(registry).buffer@,
{
    if world_present && registry.keybinds.is_none() {
        let mut taken: Vec<Keybind> = Vec::new();
        std::mem::swap(&mut taken, &mut registry.buffer);
        registry.keybinds = Some(taken);
    }
}

/// The key names that the bindings of a configuration section mention, in order.
pub open spec fn mentioned_names(binds: Seq<KeybindView>) -> Seq<Seq<char>>
    decreases binds.len(),
{
    if binds.len() == 0 {
        Seq::empty()
    } else {
        mentioned_names(binds.drop_last()) + binds.last().bind.map_values(
            |k: KeyView| name_text(k.name),
        )
    }
}

/// The key-name texts that a configuration section's bindings mention, for the keyboard layer
/// to tell which of them are key codes.
pub fn binding_key_names(config: &Config) -> (r: Vec<String>)
    ensures
        string_views(r@) == mentioned_names(built_keybinds(*config, Callback::ActionReader, seq![])),
{
    let none: Vec<String> = Vec::new();
    assert(string_views(none@) =~= Seq::<Seq<char>>::empty());
    let binds = build_keybinds(config, Callback::ActionReader, none.as_slice());
    let ghost views = keybind_views(binds@);
    let mut out: Vec<String> = Vec::new();
    let mut i: usize = 0;
    assert(string_views(out@) =~= Seq::<Seq<char>>::empty());
    while i < binds.len()
        invariant
            i <= binds@.len(),
            views == keybind_views(binds@),
            string_views(out@) == mentioned_names(views.take(i as int)),
        decreases binds@.len() - i,
    {
        let keys = &binds[i].bind;
        let ghost start = string_views(out@);
        let ghost g = |k: KeyView| name_text(k.name);
        let mut j: usize = 0;
        while j < keys.len()
            invariant
                j <= keys@.len(),
                g == (|k: KeyView| name_text(k.name)),
                string_views(out@) =~= start + key_views(keys@).take(j as int).map_values(g),
            decreases keys@.len() - j,
        {
            let ghost before = out@;
            out.push(String::from_str(keys[j].name.text()));
            proof {
                assert(string_views(out@) =~= string_views(before).push(name_text(keys@[j as int].name@)));
                assert(key_views(keys@).take(j + 1) =~= key_views(keys@).take(j as int).push(keys@[j as int]@));
            }
            j = j + 1;
        }
        proof {
            assert(key_views(keys@).take(keys@.len() as int) =~= key_views(keys@));
            assert(views.take(i + 1).drop_last() =~= views.take(i as int));
            assert(views[i as int].bind == key_views(keys@));
        }
        i = i + 1;
    }
    assert(views.take(binds@.len() as int) =~= views);
    out
}

} // verus!
