use vstd::prelude::*;

use crate::text::text_eq;

verus! {

/// A parsed configuration document (TOML or JSON) as plain values: text, lists,
/// tables with their keys in order, and everything else (numbers, booleans, dates).
pub enum ConfigValue {
    Other,
    Text(String),
    List(Vec<ConfigValue>),
    Table(Vec<(String, ConfigValue)>),
}

/// The value of `key` in table entries (the last entry with that key).
pub open spec fn lookup(entries: Seq<(String, ConfigValue)>, key: Seq<char>) -> Option<ConfigValue>
    decreases entries.len(),
{
    if entries.len() == 0 {
        None
    } else if entries.last().0@ == key {
        Some(entries.last().1)
    } else {
        lookup(entries.drop_last(), key)
    }
}

/// The value of `key` when `v` is a table that has it.
pub open spec fn cfg_get(v: Option<ConfigValue>, key: Seq<char>) -> Option<ConfigValue> {
    match v {
        Some(ConfigValue::Table(entries)) => lookup(entries@, key),
        _ => None,
    }
}

/// The text of `v` when it is text.
pub open spec fn cfg_str(v: Option<ConfigValue>) -> Option<Seq<char>> {
    match v {
        Some(ConfigValue::Text(s)) => Some(s@),
        _ => None,
    }
}

/// The elements of `v` when it is a list.
pub open spec fn cfg_list(v: Option<ConfigValue>) -> Option<Seq<ConfigValue>> {
    match v {
        Some(ConfigValue::List(items)) => Some(items@),
        _ => None,
    }
}

/// The entries of `v` when it is a table.
pub open spec fn cfg_table(v: Option<ConfigValue>) -> Option<Seq<(String, ConfigValue)>> {
    match v {
        Some(ConfigValue::Table(entries)) => Some(entries@),
        _ => None,
    }
}

/// The text elements of a list, in order, other elements left out.
pub open spec fn texts_of(items: Seq<ConfigValue>) -> Seq<Seq<char>>
    decreases items.len(),
{
    if items.len() == 0 {
        seq![]
    } else {
        let prev = texts_of(items.drop_last());
        match items.last() {
            ConfigValue::Text(s) => prev.push(s@),
            _ => prev,
        }
    }
}

/// `get` on a table value.
pub fn get_key<'a>(v: &'a ConfigValue, key: &str) -> (r: Option<&'a ConfigValue>)
    ensures
        match r {
            Some(x) => cfg_get(Some(*v), key@) == Some(*x),
            None => cfg_get(Some(*v), key@) is None,
        },
{
    match v {
        ConfigValue::Table(entries) => {
            assert(cfg_get(Some(*v), key@) == lookup(entries@, key@));
            let mut i = entries.len();
            assert(entries@.take(entries@.len() as int) =~= entries@);
            while i > 0
                invariant
                    i <= entries@.len(),
                    cfg_get(Some(*v), key@) == lookup(entries@, key@),
                    lookup(entries@, key@) == lookup(entries@.take(i as int), key@),
                decreases i,
            {
                assert(entries@.take(i as int).drop_last() =~= entries@.take(i - 1));
                assert(entries@.take(i as int).last() == entries@[i - 1]);
                if text_eq(entries[i - 1].0.as_str(), key) {
                    assert(lookup(entries@.take(i as int), key@) == Some(entries@[i - 1].1));
                    return Some(&entries[i - 1].1);
                }
                i = i - 1;
            }
            None
        },
        _ => None,
    }
}

/// `get` on an optional value.
pub fn get_opt<'a>(v: Option<&'a ConfigValue>, key: &str) -> (r: Option<&'a ConfigValue>)
    ensures
        match r {
            Some(x) => v is Some && cfg_get(Some(*v.unwrap()), key@) == Some(*x),
            None => v is None || cfg_get(Some(*v.unwrap()), key@) is None,
        },
{
    match v {
        Some(x) => get_key(x, key),
        None => None,
    }
}

/// The text of a value, when it is text.
pub fn as_text(v: Option<&ConfigValue>) -> (r: Option<&String>)
    ensures
        match r {
            Some(s) => v is Some && cfg_str(Some(*v.unwrap())) == Some(s@),
            None => v is None || cfg_str(Some(*v.unwrap())) is None,
        },
{
    match v {
        Some(ConfigValue::Text(s)) => Some(s),
        _ => None,
    }
}

/// The text elements of a list, in order.
pub fn text_items(items: &Vec<ConfigValue>) -> (r: Vec<String>)
    ensures
        crate::textset::views(r@) == texts_of(items@),
{
    let mut r: Vec<String> = Vec::new();
    let mut i: usize = 0;
    while i < items.len()
        invariant
            i <= items@.len(),
            crate::textset::views(r@) == texts_of(items@.take(i as int)),
        decreases items@.len() - i,
    {
        assert(items@.take(i + 1).drop_last() =~= items@.take(i as int));
        assert(items@.take(i + 1).last() == items@[i as int]);
        let ghost before = r@;
        match &items[i] {
            ConfigValue::Text(s) => {
                r.push(s.clone());
                assert(crate::textset::views(r@) =~= crate::textset::views(before).push(s@));
            },
            _ => {},
        }
        i = i + 1;
    }
    assert(items@.take(items@.len() as int) =~= items@);
    r
}

} // verus!
