//! Configuration values and the per-section view of them that each part of the mod queries.
use vstd::prelude::*;
use crate::text::str_eq;

verus! {

/// A configuration value: the kinds the mod reads, and `Other` for the kinds it never reads
/// (floating-point numbers and dates).
pub enum ConfigValue {
    String(String),
    Integer(i64),
    Boolean(bool),
    Array(Vec<ConfigValue>),
    Table(Vec<(String, ConfigValue)>),
    Other,
}

/// The index of the first entry of `entries` whose key is `key`.
pub open spec fn key_index(entries: Seq<(String, ConfigValue)>, key: Seq<char>) -> Option<int>
    decreases entries.len(),
{
    if entries.len() == 0 {
        None
    } else if entries[0].0@ == key {
        Some(0)
    } else {
        match key_index(entries.drop_first(), key) {
            Some(i) => Some(i + 1),
            None => None,
        }
    }
}

/// The value stored under `key` when `v` is a table holding it.
pub open spec fn entry_spec(v: ConfigValue, key: Seq<char>) -> Option<ConfigValue> {
    match v {
        ConfigValue::Table(entries) => match key_index(entries@, key) {
            Some(i) => Some(entries@[i].1),
            None => None,
        },
        _ => None,
    }
}

/// The value found by following `path` key by key from `v`.
pub open spec fn lookup_spec(v: ConfigValue, path: Seq<Seq<char>>) -> Option<ConfigValue>
    decreases path.len(),
{
    if path.len() == 0 {
        Some(v)
    } else {
        match entry_spec(v, path[0]) {
            Some(c) => lookup_spec(c, path.drop_first()),
            None => None,
        }
    }
}

proof fn lemma_key_index(entries: Seq<(String, ConfigValue)>, key: Seq<char>)
    ensures
        key_index(entries, key) matches Some(i) ==> 0 <= i < entries.len() && entries[i].0@
            == key && forall|j: int| 0 <= j < i ==> entries[j].0@ != key,
        key_index(entries, key) is None ==> forall|j: int|
            0 <= j < entries.len() ==> entries[j].0@ != key,
    decreases entries.len(),
{
    if entries.len() > 0 {
        lemma_key_index(entries.drop_first(), key);
        if key_index(entries, key) is None {
            assert forall|j: int| 0 <= j < entries.len() implies entries[j].0@ != key by {
                if j > 0 {
                    assert(entries.drop_first()[j - 1] == entries[j]);
                }
            }
        }
        if let Some(i) = key_index(entries, key) {
            assert forall|j: int| 0 <= j < i implies entries[j].0@ != key by {
                if j > 0 {
                    assert(entries.drop_first()[j - 1] == entries[j]);
                }
            }
        }
    }
}

fn find_key(entries: &Vec<(String, ConfigValue)>, key: &str) -> (r: Option<usize>)
    ensures
        r matches Some(i) ==> key_index(entries@, key@) == Some(i as int) && i < entries@.len(),
        r is None ==> key_index(entries@, key@) is None,
{
    proof {
        lemma_key_index(entries@, key@);
    }
    let mut i: usize = 0;
    while i < entries.len()
        invariant
            i <= entries@.len(),
            forall|j: int| 0 <= j < i ==> entries@[j].0@ != key@,
        decreases entries@.len() - i,
    {
        if str_eq(entries[i].0.as_str(), key) {
            proof {
                lemma_key_index(entries@, key@);
            }
            return Some(i);
        }
        i = i + 1;
    }
    proof {
        lemma_key_index(entries@, key@);
    }
    None
}

impl ConfigValue {
    /// The value stored under `key`, when this is a table that holds it.
    pub fn get(&self, key: &str) -> (r: Option<&ConfigValue>)
        ensures
            r is Some == entry_spec(*self, key@) is Some,
            r matches Some(x) ==> *x == entry_spec(*self, key@)->0,
    {
        match self {
            ConfigValue::Table(entries) => match find_key(entries, key) {
                Some(i) => {
                    let e = &entries[i];
                    assert(*e == entries@[i as int]);
                    assert(entry_spec(*self, key@) == Some(entries@[i as int].1));
                    Some(&e.1)
                },
                None => None,
            },
            _ => None,
        }
    }

    /// Takes out the value stored under `key`, when this is a table that holds it.
    pub fn take_entry(self, key: &str) -> (r: Option<ConfigValue>)
        ensures
            r == entry_spec(self, key@),
    {
        match self {
            ConfigValue::Table(mut entries) => match find_key(&entries, key) {
                Some(i) => {
                    let ghost before = entries@;
                    let (_, v) = entries.remove(i);
                    assert(v == before[i as int].1);
                    Some(v)
                },
                None => None,
            },
            _ => None,
        }
    }

    /// The boolean, when this is one.
    pub fn as_bool(&self) -> (r: Option<bool>)
        ensures
            r == match *self {
                ConfigValue::Boolean(b) => Some(b),
                _ => None,
            },
    {
        match self {
            ConfigValue::Boolean(b) => Some(*b),
            _ => None,
        }
    }

    /// The integer, when this is one.
    pub fn as_integer(&self) -> (r: Option<i64>)
        ensures
            r == match *self {
                ConfigValue::Integer(n) => Some(n),
                _ => None,
            },
    {
        match self {
            ConfigValue::Integer(n) => Some(*n),
            _ => None,
        }
    }

    /// The string, when this is one.
    pub fn as_str(&self) -> (r: Option<&str>)
        ensures
            r is Some == (*self is String),
            r matches Some(s) ==> (*self matches ConfigValue::String(t) && s@ == t@),
    {
        match self {
            ConfigValue::String(s) => Some(s.as_str()),
            _ => None,
        }
    }

    /// The elements, when this is an array.
    pub fn as_array(&self) -> (r: Option<&Vec<ConfigValue>>)
        ensures
            r is Some == (*self is Array),
            r matches Some(a) ==> (*self matches ConfigValue::Array(b) && a@ == b@),
    {
        match self {
            ConfigValue::Array(a) => Some(a),
            _ => None,
        }
    }

    /// The entries, when this is a table.
    pub fn as_table(&self) -> (r: Option<&Vec<(String, ConfigValue)>>)
        ensures
            r is Some == (*self is Table),
            r matches Some(a) ==> (*self matches ConfigValue::Table(b) && a@ == b@),
    {
        match self {
            ConfigValue::Table(t) => Some(t),
            _ => None,
        }
    }
}

/// The keys of a path, as character sequences.
pub open spec fn path_view(name: Seq<&str>) -> Seq<Seq<char>> {
    name.map_values(|s: &str| s@)
}

/// Follows `path` from `v`, key by key.
fn lookup<'a>(v: &'a ConfigValue, name: &[&str]) -> (r: Option<&'a ConfigValue>)
    ensures
        r is Some == lookup_spec(*v, path_view(name@)) is Some,
        r matches Some(x) ==> *x == lookup_spec(*v, path_view(name@))->0,
{
    let mut cur: &ConfigValue = v;
    let mut i: usize = 0;
    assert(path_view(name@).skip(0) =~= path_view(name@));
    while i < name.len()
        invariant
            i <= name@.len(),
            lookup_spec(*v, path_view(name@)) == lookup_spec(*cur, path_view(name@).skip(i as int)),
        decreases name@.len() - i,
    {
        let ghost rest = path_view(name@).skip(i as int);
        assert(rest[0] == name@[i as int]@);
        assert(rest.drop_first() =~= path_view(name@).skip(i + 1));
        match cur.get(name[i]) {
            Some(next) => {
                cur = next;
            },
            None => {
                return None;
            },
        }
        i = i + 1;
    }
    assert(path_view(name@).skip(i as int) =~= Seq::<Seq<char>>::empty());
    Some(cur)
}

/// The configuration of one section: the value read from the configuration file, and the
/// built-in value.
pub struct Config {
    pub defaults: Option<ConfigValue>,
    pub file: Option<ConfigValue>,
}

/// What a query finds: the first of `file` and `defaults` that holds the path.
pub open spec fn deep_query_spec(config: Config, path: Seq<Seq<char>>) -> Option<ConfigValue> {
    let in_file = match config.file {
        Some(f) => lookup_spec(f, path),
        None => None,
    };
    if in_file is Some {
        in_file
    } else {
        match config.defaults {
            Some(d) => lookup_spec(d, path),
            None => None,
        }
    }
}

impl Config {
    /// The section `context` of the two whole configurations. The section of `full` (the file
    /// read, or the built-in configuration when it cannot be read) is kept in `defaults` and
    /// the section of `built_in` in `file`, so that the built-in values are found first.
    pub fn new(context: &str, full: ConfigValue, built_in: ConfigValue) -> (r: Config)
        ensures
            r.defaults == entry_spec(full, context@),
            r.file == entry_spec(built_in, context@),
    {
        Config { defaults: full.take_entry(context), file: built_in.take_entry(context) }
    }

    /// The value at a nested path of keys.
    pub fn deep_query(&self, name: &[&str]) -> (r: Option<&ConfigValue>)
        ensures
            r is Some == deep_query_spec(*self, path_view(name@)) is Some,
            r matches Some(x) ==> *x == deep_query_spec(*self, path_view(name@))->0,
    {
        let in_file = match &self.file {
            Some(f) => lookup(f, name),
            None => None,
        };
        match in_file {
            Some(x) => Some(x),
            None => match &self.defaults {
                Some(d) => lookup(d, name),
                None => None,
            },
        }
    }
}

/// The boolean at `path`, or `fallback` when there is none.
pub open spec fn bool_setting(config: Config, path: Seq<Seq<char>>, fallback: bool) -> bool {
    match deep_query_spec(config, path) {
        Some(ConfigValue::Boolean(b)) => b,
        _ => fallback,
    }
}

/// The boolean at a nested path of keys, or `fallback` when the path holds no boolean.
pub fn query_bool(config: &Config, name: &[&str], fallback: bool) -> (r: bool)
    ensures
        r == bool_setting(*config, path_view(name@), fallback),
{
    match config.deep_query(name) {
        Some(v) => match v.as_bool() {
            Some(b) => b,
            None => fallback,
        },
        None => fallback,
    }
}

} // verus!
