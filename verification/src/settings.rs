//! Plugin settings: the JSON object a plugin is configured with, as far as plugins read it.
//!
//! A plugin looks up keys of its settings object and reads each value as text, a flag, a
//! whole number, a list of texts or a table of texts. `Settings` holds the object's entries
//! with their values down to that depth; values nested deeper are kept as `Nested`.

use vstd::prelude::*;
use crate::assoc::{assoc_find, assoc_view};
use crate::text::chars_of;

verus! {

/// A scalar JSON value, or a value nested inside a list or a table.
#[derive(Clone, Debug)]
pub enum Scalar {
    Null,
    Bool(bool),
    /// A number, with its value where it is a whole number from 0 to `u64::MAX`.
    Number(Option<u64>),
    Text(String),
    /// An array or object nested inside a list or a table.
    Nested,
}

/// The value of one key of a settings object.
#[derive(Clone, Debug)]
pub enum Setting {
    Scalar(Scalar),
    List(Vec<Scalar>),
    Table(Vec<(String, Scalar)>),
}

/// A settings object: its keys with their values.
#[derive(Clone, Debug)]
pub struct Settings {
    pub entries: Vec<(String, Setting)>,
}

/// The texts of a list, in order; other values are skipped.
pub open spec fn list_texts(s: Seq<Scalar>) -> Seq<Seq<char>>
    decreases s.len(),
{
    if s.len() == 0 {
        Seq::empty()
    } else {
        let rest = list_texts(s.drop_last());
        match s.last() {
            Scalar::Text(t) => rest.push(t@),
            _ => rest,
        }
    }
}

/// The entries of a table whose values are texts, in order.
pub open spec fn table_texts(s: Seq<(String, Scalar)>) -> Seq<(Seq<char>, Seq<char>)>
    decreases s.len(),
{
    if s.len() == 0 {
        Seq::empty()
    } else {
        let rest = table_texts(s.drop_last());
        match s.last().1 {
            Scalar::Text(t) => rest.push((s.last().0@, t@)),
            _ => rest,
        }
    }
}

/// The value of `key`, if the object has it.
pub open spec fn setting_of(s: Settings, key: Seq<char>) -> Option<Setting> {
    if assoc_view(s.entries@).contains_key(key) {
        Some(assoc_view(s.entries@)[key])
    } else {
        None
    }
}

/// The value of `key` where it is a text.
pub open spec fn text_setting(s: Settings, key: Seq<char>) -> Option<Seq<char>> {
    match setting_of(s, key) {
        Some(Setting::Scalar(Scalar::Text(t))) => Some(t@),
        _ => None,
    }
}

/// The value of `key` where it is a flag.
pub open spec fn bool_setting(s: Settings, key: Seq<char>) -> Option<bool> {
    match setting_of(s, key) {
        Some(Setting::Scalar(Scalar::Bool(b))) => Some(b),
        _ => None,
    }
}

/// The value of `key` where it is a whole number that fits in 64 bits.
pub open spec fn u64_setting(s: Settings, key: Seq<char>) -> Option<u64> {
    match setting_of(s, key) {
        Some(Setting::Scalar(Scalar::Number(Some(n)))) => Some(n),
        _ => None,
    }
}

/// The texts of the list under `key`, where `key` holds a list.
pub open spec fn list_setting(s: Settings, key: Seq<char>) -> Option<Seq<Seq<char>>> {
    match setting_of(s, key) {
        Some(Setting::List(l)) => Some(list_texts(l@)),
        _ => None,
    }
}

/// The text entries of the table under `key`, where `key` holds a table.
pub open spec fn table_setting(s: Settings, key: Seq<char>) -> Option<Seq<(Seq<char>, Seq<char>)>> {
    match setting_of(s, key) {
        Some(Setting::Table(t)) => Some(table_texts(t@)),
        _ => None,
    }
}

/// The views of a vector of strings.
pub open spec fn string_views(v: Seq<String>) -> Seq<Seq<char>> {
    v.map_values(|s: String| s@)
}

/// The views of a vector of string pairs.
pub open spec fn pair_views(v: Seq<(String, String)>) -> Seq<(Seq<char>, Seq<char>)> {
    v.map_values(|p: (String, String)| (p.0@, p.1@))
}

/// The texts of a list, in order.
pub fn texts_of_list(l: &Vec<Scalar>) -> (r: Vec<String>)
    ensures
        string_views(r@) == list_texts(l@),
{
    let mut r: Vec<String> = Vec::new();
    let mut i: usize = 0;
    while i < l.len()
        invariant
            i <= l@.len(),
            string_views(r@) == list_texts(l@.take(i as int)),
        decreases l@.len() - i,
    {
        assert(l@.take(i + 1).drop_last() =~= l@.take(i as int));
        match &l[i] {
            Scalar::Text(t) => {
                r.push(t.clone());
            },
            _ => {},
        }
        proof {
            assert(string_views(r@) =~= list_texts(l@.take(i + 1)));
        }
        i = i + 1;
    }
    assert(l@.take(l@.len() as int) =~= l@);
    r
}

/// The text entries of a table, in order.
pub fn texts_of_table(t: &Vec<(String, Scalar)>) -> (r: Vec<(String, String)>)
    ensures
        pair_views(r@) == table_texts(t@),
{
    let mut r: Vec<(String, String)> = Vec::new();
    let mut i: usize = 0;
    while i < t.len()
        invariant
            i <= t@.len(),
            pair_views(r@) == table_texts(t@.take(i as int)),
        decreases t@.len() - i,
    {
        assert(t@.take(i + 1).drop_last() =~= t@.take(i as int));
        match &t[i].1 {
            Scalar::Text(v) => {
                r.push((t[i].0.clone(), v.clone()));
            },
            _ => {},
        }
        proof {
            assert(pair_views(r@) =~= table_texts(t@.take(i + 1)));
        }
        i = i + 1;
    }
    assert(t@.take(t@.len() as int) =~= t@);
    r
}

impl Settings {
    /// A settings object without keys.
    pub fn empty() -> (r: Settings)
        ensures
            r.entries@.len() == 0,
    {
        Settings { entries: Vec::new() }
    }

    /// The value of `key`, if the object has it.
    pub fn get(&self, key: &str) -> (r: Option<&Setting>)
        ensures
            match r {
                Some(v) => setting_of(*self, key@) == Some(*v),
                None => setting_of(*self, key@) is None,
            },
    {
        let k = chars_of(key);
        match assoc_find(&self.entries, &k) {
            Some(j) => Some(&self.entries[j].1),
            None => None,
        }
    }

    /// The value of `key` where it is a text.
    pub fn get_str(&self, key: &str) -> (r: Option<String>)
        ensures
            match r {
                Some(t) => text_setting(*self, key@) == Some(t@),
                None => text_setting(*self, key@) is None,
            },
    {
        match self.get(key) {
            Some(Setting::Scalar(Scalar::Text(t))) => Some(t.clone()),
            _ => None,
        }
    }

    /// The value of `key` where it is a flag.
    pub fn get_bool(&self, key: &str) -> (r: Option<bool>)
        ensures
            r == bool_setting(*self, key@),
    {
        match self.get(key) {
            Some(Setting::Scalar(Scalar::Bool(b))) => Some(*b),
            _ => None,
        }
    }

    /// The value of `key` where it is a whole number that fits in 64 bits.
    pub fn get_u64(&self, key: &str) -> (r: Option<u64>)
        ensures
            r == u64_setting(*self, key@),
    {
        match self.get(key) {
            Some(Setting::Scalar(Scalar::Number(Some(n)))) => Some(*n),
            _ => None,
        }
    }

    /// The texts of the list under `key`, where `key` holds a list.
    pub fn get_str_list(&self, key: &str) -> (r: Option<Vec<String>>)
        ensures
            match r {
                Some(v) => list_setting(*self, key@) == Some(string_views(v@)),
                None => list_setting(*self, key@) is None,
            },
    {
        match self.get(key) {
            Some(Setting::List(l)) => Some(texts_of_list(l)),
            _ => None,
        }
    }

    /// The text entries of the table under `key`, where `key` holds a table.
    pub fn get_str_table(&self, key: &str) -> (r: Option<Vec<(String, String)>>)
        ensures
            match r {
                Some(v) => table_setting(*self, key@) == Some(pair_views(v@)),
                None => table_setting(*self, key@) is None,
            },
    {
        match self.get(key) {
            Some(Setting::Table(t)) => Some(texts_of_table(t)),
            _ => None,
        }
    }
}

} // verus!
