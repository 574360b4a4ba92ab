//! Trusted access to the YAML reader.
//!
//! The strict schema reading itself is verified code in the config
//! modules; only the generic YAML value tree of `serde_yaml` is opaque
//! and reached through the declarations below.  Each accessor's result
//! is a function of its arguments alone, so it carries a name that the
//! schema readers' contracts are stated over.
use vstd::prelude::*;

verus! {

#[verifier::external_type_specification]
#[verifier::external_body]
pub struct ExYamlValue(serde_yaml::Value);

/// The value tree a YAML text parses to, `None` on a parse error.
pub uninterp spec fn yaml_tree_of(s: Seq<char>) -> Option<serde_yaml::Value>;

/// The value under a mapping key, `None` when the value is not a mapping
/// or the key is absent.
pub uninterp spec fn yaml_get_of(v: serde_yaml::Value, key: Seq<char>) -> Option<
    serde_yaml::Value,
>;

/// The characters of a string value, `None` for any other kind.
pub uninterp spec fn yaml_str_of(v: serde_yaml::Value) -> Option<Seq<char>>;

/// The boolean of a bool value, `None` for any other kind.
pub uninterp spec fn yaml_bool_of(v: serde_yaml::Value) -> Option<bool>;

/// The integer of a number value, `None` when it is no 64-bit integer.
pub uninterp spec fn yaml_i64_of(v: serde_yaml::Value) -> Option<i64>;

/// The items of a sequence value, `None` for any other kind.
pub uninterp spec fn yaml_items_of(v: serde_yaml::Value) -> Option<Seq<serde_yaml::Value>>;

/// Relies on `serde_yaml::from_str::<Value>`: parses YAML text into the
/// generic value tree; a parse error becomes `None`.
#[verifier::external_body]
pub fn yaml_parse(s: &str) -> (r: Option<serde_yaml::Value>)
    ensures
        r == yaml_tree_of(s@),
{
    serde_yaml::from_str(s).ok()
}

/// Relies on `serde_yaml::Value::get`: the value under a mapping key,
/// `None` when the value is not a mapping or the key is absent.
#[verifier::external_body]
pub fn yaml_get<'a>(v: &'a serde_yaml::Value, key: &str) -> (r: Option<&'a serde_yaml::Value>)
    ensures
        match r {
            Some(inner) => yaml_get_of(*v, key@) == Some(*inner),
            None => yaml_get_of(*v, key@) is None,
        },
{
    v.get(key)
}

/// Relies on `serde_yaml::Value::as_str`: the owned text of a string
/// value, `None` for any other kind of value.
#[verifier::external_body]
pub fn yaml_str(v: &serde_yaml::Value) -> (r: Option<String>)
    ensures
        match r {
            Some(s) => yaml_str_of(*v) == Some(s@),
            None => yaml_str_of(*v) is None,
        },
{
    v.as_str().map(str::to_owned)
}

/// Relies on `serde_yaml::Value::as_bool`.
#[verifier::external_body]
pub fn yaml_bool(v: &serde_yaml::Value) -> (r: Option<bool>)
    ensures
        r == yaml_bool_of(*v),
{
    v.as_bool()
}

/// Relies on `serde_yaml::Value::as_i64`.
#[verifier::external_body]
pub fn yaml_i64(v: &serde_yaml::Value) -> (r: Option<i64>)
    ensures
        r == yaml_i64_of(*v),
{
    v.as_i64()
}

/// Relies on `serde_yaml::Value::as_sequence`: the items of a sequence
/// value, `None` for any other kind of value.
#[verifier::external_body]
pub fn yaml_items<'a>(v: &'a serde_yaml::Value) -> (r: Option<&'a Vec<serde_yaml::Value>>)
    ensures
        match r {
            Some(items) => yaml_items_of(*v) == Some(items@),
            None => yaml_items_of(*v) is None,
        },
{
    v.as_sequence()
}

/// The characters of the string under `key`, when the mapping has one.
pub open spec fn str_under(v: serde_yaml::Value, key: Seq<char>) -> Option<Seq<char>> {
    match yaml_get_of(v, key) {
        Some(inner) => yaml_str_of(inner),
        None => None,
    }
}

/// The boolean under `key`; an absent key or a non-bool is `default`.
pub open spec fn bool_under(v: serde_yaml::Value, key: Seq<char>, default: bool) -> bool {
    match yaml_get_of(v, key) {
        Some(inner) => match yaml_bool_of(inner) {
            Some(b) => b,
            None => default,
        },
        None => default,
    }
}

/// The integer under `key`, when the mapping has one.
pub open spec fn i64_under(v: serde_yaml::Value, key: Seq<char>) -> Option<i64> {
    match yaml_get_of(v, key) {
        Some(inner) => yaml_i64_of(inner),
        None => None,
    }
}

/// The string items of a sequence, in order; items that are not strings
/// are dropped.
pub open spec fn string_items(items: Seq<serde_yaml::Value>) -> Seq<Seq<char>>
    decreases items.len(),
{
    if items.len() == 0 {
        Seq::empty()
    } else {
        string_items(items.drop_last()).add(
            match yaml_str_of(items.last()) {
                Some(s) => seq![s],
                None => Seq::empty(),
            },
        )
    }
}

/// The string list under `key`: `None` when the key is absent or holds
/// no sequence, else the sequence's string items.
pub open spec fn list_under(v: serde_yaml::Value, key: Seq<char>) -> Option<Seq<Seq<char>>> {
    match yaml_get_of(v, key) {
        Some(inner) => match yaml_items_of(inner) {
            Some(items) => Some(string_items(items)),
            None => None,
        },
        None => None,
    }
}

/// A string read from under `key`, when the mapping has one there.
pub fn read_string(v: &serde_yaml::Value, key: &str) -> (r: Option<String>)
    ensures
        match r {
            Some(s) => str_under(*v, key@) == Some(s@),
            None => str_under(*v, key@) is None,
        },
{
    match yaml_get(v, key) {
        Some(inner) => yaml_str(inner),
        None => None,
    }
}

/// A bool read from under `key`; an absent key is `default`.
pub fn read_bool(v: &serde_yaml::Value, key: &str, default: bool) -> (r: bool)
    ensures
        r == bool_under(*v, key@, default),
{
    match yaml_get(v, key) {
        Some(inner) => match yaml_bool(inner) {
            Some(b) => b,
            None => default,
        },
        None => default,
    }
}

/// An integer read from under `key`, when the mapping has one there.
pub fn read_i64(v: &serde_yaml::Value, key: &str) -> (r: Option<i64>)
    ensures
        r == i64_under(*v, key@),
{
    match yaml_get(v, key) {
        Some(inner) => yaml_i64(inner),
        None => None,
    }
}

/// A list of strings read from under `key`: `None` when the key is
/// absent or holds no sequence, `Some` of the string items otherwise
/// (items that are not strings are dropped).
pub fn read_string_list(v: &serde_yaml::Value, key: &str) -> (r: Option<Vec<String>>)
    ensures
        r.deep_view() == list_under(*v, key@),
{
    let inner = match yaml_get(v, key) {
        Some(inner) => inner,
        None => {
            return None;
        },
    };
    let items = match yaml_items(inner) {
        Some(items) => items,
        None => {
            return None;
        },
    };
    let mut out: Vec<String> = Vec::new();
    let mut i: usize = 0;
    while i < items.len()
        invariant
            i <= items@.len(),
            yaml_items_of(*inner) == Some(items@),
            out.deep_view() == string_items(items@.subrange(0, i as int)),
        decreases items@.len() - i,
    {
        let ghost prefix = items@.subrange(0, i as int);
        let ghost prefix1 = items@.subrange(0, i + 1 as int);
        proof {
            assert(prefix1.drop_last() =~= prefix);
            assert(prefix1.last() == items@[i as int]);
        }
        match yaml_str(&items[i]) {
            Some(s) => {
                let ghost sv = s@;
                let ghost o0 = out.deep_view();
                out.push(s);
                proof {
                    assert(out.deep_view() =~~= o0.push(sv));
                    assert(out.deep_view() =~~= string_items(prefix1));
                }
            },
            None => {
                proof {
                    assert(string_items(prefix1) =~= string_items(prefix));
                }
            },
        }
        i += 1;
    }
    proof {
        assert(items@.subrange(0, items@.len() as int) =~= items@);
    }
    Some(out)
}

} // verus!
