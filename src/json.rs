use vstd::prelude::*;
use serde_json::Value;

use crate::error::ListingError;

verus! {

#[verifier::external_type_specification]
#[verifier::external_body]
pub struct ExValue(serde_json::Value);

/// The entries of a JSON value that is an object, by key; `None` for any other value.
pub uninterp spec fn object_entries(v: serde_json::Value) -> Option<Map<Seq<char>, serde_json::Value>>;

/// The text of a JSON value that is a string; `None` for any other value.
pub uninterp spec fn string_text(v: serde_json::Value) -> Option<Seq<char>>;

/// The items of a JSON value that is an array; `None` for any other value.
pub uninterp spec fn array_items(v: serde_json::Value) -> Option<Seq<serde_json::Value>>;

/// The number held by a JSON value that is a non-negative integer fitting in `u64`.
pub uninterp spec fn unsigned_number(v: serde_json::Value) -> Option<u64>;

/// Relies on `Value::is_object`: true exactly for the `Object` variant.
#[verifier::external_body]
pub(crate) fn json_is_object(v: &Value) -> (r: bool)
    ensures
        r == object_entries(*v).is_some(),
{
    v.is_object()
}

/// Relies on `Value::Object` and `Map::new`: a fresh object without entries.
#[verifier::external_body]
pub(crate) fn json_empty_object() -> (r: Value)
    ensures
        object_entries(r) == Some(Map::<Seq<char>, Value>::empty()),
{
    Value::Object(serde_json::Map::new())
}

/// Relies on `Map::remove` (reached through `Value::as_object_mut`): the entry under
/// `key` leaves the object and is handed back.
#[verifier::external_body]
pub(crate) fn json_object_remove(v: &mut Value, key: &str) -> (r: Option<Value>)
    requires
        object_entries(*old(v)).is_some(),
    ensures
        object_entries(*final(v)) == Some(object_entries(*old(v)).unwrap().remove(key@)),
        r == entry_of(object_entries(*old(v)).unwrap(), key@),
{
    match v.as_object_mut() {
        Some(m) => m.remove(key),
        None => None,
    }
}

/// Relies on `Map::insert` (reached through `Value::as_object_mut`): `key` maps to
/// `child` afterwards, and the other entries stay.
#[verifier::external_body]
pub(crate) fn json_object_insert(v: &mut Value, key: String, child: Value)
    requires
        object_entries(*old(v)).is_some(),
    ensures
        object_entries(*final(v)) == Some(object_entries(*old(v)).unwrap().insert(key@, child)),
{
    if let Some(m) = v.as_object_mut() {
        m.insert(key, child);
    }
}

/// Relies on `Value::get` with a string key: the entry of an object, `None` for a
/// missing key or a value that is no object.
#[verifier::external_body]
pub(crate) fn json_get<'a>(v: &'a Value, key: &str) -> (r: Option<&'a Value>)
    ensures
        r.is_some() == (object_entries(*v).is_some() && object_entries(*v).unwrap().contains_key(key@)),
        r.is_some() ==> *r.unwrap() == object_entries(*v).unwrap()[key@],
{
    v.get(key)
}

/// Relies on `Value::as_array`: the items of an array value.
#[verifier::external_body]
pub(crate) fn json_as_array(v: &Value) -> (r: Option<&Vec<Value>>)
    ensures
        r.is_some() == array_items(*v).is_some(),
        r.is_some() ==> r.unwrap()@ == array_items(*v).unwrap(),
{
    v.as_array()
}

/// Relies on `Value::as_str`: the text of a string value.
#[verifier::external_body]
pub(crate) fn json_as_str(v: &Value) -> (r: Option<&str>)
    ensures
        r.is_some() == string_text(*v).is_some(),
        r.is_some() ==> r.unwrap()@ == string_text(*v).unwrap(),
{
    v.as_str()
}

/// Relies on `Value::String`: a string value, which is neither object nor array.
#[verifier::external_body]
pub(crate) fn json_string(s: String) -> (r: Value)
    ensures
        string_text(r) == Some(s@),
        object_entries(r).is_none(),
        array_items(r).is_none(),
{
    Value::String(s)
}

/// Relies on `Value::Number` built from a `u64`, which `Value::as_u64` gives back.
#[verifier::external_body]
pub(crate) fn json_unsigned(n: u64) -> (r: Value)
    ensures
        unsigned_number(r) == Some(n),
        object_entries(r).is_none(),
        string_text(r).is_none(),
{
    Value::Number(n.into())
}

/// Relies on `Value::Array`: an array value holding `items` in order.
#[verifier::external_body]
pub(crate) fn json_array(items: Vec<Value>) -> (r: Value)
    ensures
        array_items(r) == Some(items@),
        object_entries(r).is_none(),
        string_text(r).is_none(),
{
    Value::Array(items)
}

/// The value under `key`, if there is one.
pub open spec fn entry_of(m: Map<Seq<char>, Value>, key: Seq<char>) -> Option<Value> {
    if m.contains_key(key) {
        Some(m[key])
    } else {
        None
    }
}

/// The entries of `v` when it is an object; no entries when it is missing or no object.
pub open spec fn entries_or_empty(v: Option<Value>) -> Map<Seq<char>, Value> {
    match v {
        Some(x) => match object_entries(x) {
            Some(m) => m,
            None => Map::empty(),
        },
        None => Map::empty(),
    }
}

/// `new` is `old` with `value` set at the end of `path`: every value on the way that
/// is missing or is no object counts as an empty object, the entries beside the path
/// stay, and the entry at the end becomes `value`.
pub open spec fn path_set(old: Option<Value>, new: Value, path: Seq<Seq<char>>, value: Value) -> bool
    decreases path.len(),
{
    if path.len() == 0 {
        new == value
    } else {
        let base = entries_or_empty(old);
        match object_entries(new) {
            Some(m) => m.contains_key(path[0]) && m == base.insert(path[0], m[path[0]])
                && path_set(entry_of(base, path[0]), m[path[0]], path.drop_first(), value),
            None => false,
        }
    }
}

/// The keys of a path, as text.
pub open spec fn path_keys(path: Seq<&str>) -> Seq<Seq<char>> {
    path.map_values(|k: &str| k@)
}

/// The value reached from `v` by following `path` through objects.
pub open spec fn value_at(v: Value, path: Seq<Seq<char>>) -> Option<Value>
    decreases path.len(),
{
    if path.len() == 0 {
        Some(v)
    } else {
        match object_entries(v) {
            Some(m) => if m.contains_key(path[0]) {
                value_at(m[path[0]], path.drop_first())
            } else {
                None
            },
            None => None,
        }
    }
}

fn set_path_from(target: &mut Value, path: &[&str], idx: usize, value: Value)
    requires
        idx < path@.len(),
    ensures
        path_set(Some(*old(target)), *final(target), path_keys(path@).skip(idx as int), value),
    decreases path@.len() - idx,
{
    let ghost old_target = *target;
    let ghost keys = path_keys(path@).skip(idx as int);
    if !json_is_object(target) {
        *target = json_empty_object();
    }
    let ghost base = object_entries(*target).unwrap();
    assert(base == entries_or_empty(Some(old_target)));
    let key: &str = path[idx];
    assert(keys[0] == key@);
    if idx + 1 == path.len() {
        json_object_insert(target, String::from_str(key), value);
        assert(keys.drop_first().len() == 0);
        let ghost m = object_entries(*target).unwrap();
        assert(m =~= base.insert(key@, m[key@]));
        assert(path_set(entry_of(base, key@), m[key@], keys.drop_first(), value));
    } else {
        let removed = json_object_remove(target, key);
        let mut child = match removed {
            Some(c) => c,
            None => json_empty_object(),
        };
        let ghost old_child = child;
        set_path_from(&mut child, path, idx + 1, value);
        assert(path_keys(path@).skip(idx + 1) == keys.drop_first());
        assert(entries_or_empty(Some(old_child)) == entries_or_empty(entry_of(base, key@)));
        proof {
            lemma_path_set_depends_on_entries(Some(old_child), entry_of(base, key@), child, keys.drop_first(), value);
        }
        json_object_insert(target, String::from_str(key), child);
        let ghost m = object_entries(*target).unwrap();
        assert(m =~= base.insert(key@, m[key@]));
        assert(m[key@] == child);
    }
}

proof fn lemma_path_set_depends_on_entries(a: Option<Value>, b: Option<Value>, new: Value, path: Seq<Seq<char>>, value: Value)
    requires
        entries_or_empty(a) == entries_or_empty(b),
        path_set(a, new, path, value),
    ensures
        path_set(b, new, path, value),
{
}

/// Sets `value` at the dotted `path` inside `target`, turning every value on the way
/// that is missing or no object into an object; an empty path is refused.
pub fn set_json_value(target: &mut Value, path: &[&str], value: Value) -> (r: Result<(), ListingError>)
    ensures
        path@.len() == 0 <==> r == Err::<(), ListingError>(ListingError::InvalidArgument),
        path@.len() == 0 ==> *final(target) == *old(target),
        path@.len() > 0 ==> path_set(Some(*old(target)), *final(target), path_keys(path@), value),
{
    if path.len() == 0 {
        return Err(ListingError::InvalidArgument);
    }
    set_path_from(target, path, 0, value);
    assert(path_keys(path@).skip(0) == path_keys(path@));
    Ok(())
}

/// The value reached from a possibly missing value by following `path`.
pub open spec fn value_in(v: Option<Value>, path: Seq<Seq<char>>) -> Option<Value> {
    match v {
        Some(x) => value_at(x, path),
        None => None,
    }
}

/// After a set, `value` stands at the end of the path.
pub proof fn law_set_reaches_path(old: Option<Value>, new: Value, path: Seq<Seq<char>>, value: Value)
    requires
        path_set(old, new, path, value),
    ensures
        value_at(new, path) == Some(value),
    decreases path.len(),
{
    if path.len() > 0 {
        let m = object_entries(new).unwrap();
        law_set_reaches_path(entry_of(entries_or_empty(old), path[0]), m[path[0]], path.drop_first(), value);
    }
}

/// A set leaves alone every path that parts from the set path at some position `i`.
pub proof fn law_set_leaves_other_paths(
    old: Option<Value>,
    new: Value,
    path: Seq<Seq<char>>,
    value: Value,
    other: Seq<Seq<char>>,
    i: int,
)
    requires
        path_set(old, new, path, value),
        0 <= i < path.len(),
        i < other.len(),
        path[i] != other[i],
    ensures
        value_at(new, other) == value_in(old, other),
    decreases path.len(),
{
    let base = entries_or_empty(old);
    let m = object_entries(new).unwrap();
    if path[0] != other[0] {
        assert(m.contains_key(other[0]) == base.contains_key(other[0]));
    } else {
        law_set_leaves_other_paths(entry_of(base, path[0]), m[path[0]], path.drop_first(), value, other.drop_first(), i - 1);
    }
}

/// Setting a path of one key on an object puts `value` under that key and keeps
/// every other key with its value.
pub proof fn law_single_key_keeps_siblings(old: Value, new: Value, key: Seq<char>, value: Value)
    requires
        object_entries(old).is_some(),
        path_set(Some(old), new, seq![key], value),
    ensures
        object_entries(new) == Some(object_entries(old).unwrap().insert(key, value)),
{
    let path = seq![key];
    assert(path[0] == key);
    assert(path.drop_first().len() == 0);
    let m = object_entries(new).unwrap();
    assert(path_set(entry_of(object_entries(old).unwrap(), key), m[key], path.drop_first(), value));
    assert(m[key] == value);
    assert(m =~= object_entries(old).unwrap().insert(key, value));
}

/// Where the value under the first key of a two-key path is no object, the set
/// replaces it by a fresh object that holds the second key alone: the former value
/// is gone.
pub proof fn law_non_object_is_replaced(old: Value, new: Value, outer: Seq<char>, inner: Seq<char>, value: Value)
    requires
        object_entries(old).is_some(),
        object_entries(old).unwrap().contains_key(outer),
        object_entries(object_entries(old).unwrap()[outer]).is_none(),
        path_set(Some(old), new, seq![outer, inner], value),
    ensures
        object_entries(new).unwrap().contains_key(outer),
        object_entries(object_entries(new).unwrap()[outer]) == Some(Map::<Seq<char>, Value>::empty().insert(inner, value)),
{
    let path = seq![outer, inner];
    assert(path[0] == outer);
    assert(path.drop_first() =~= seq![inner]);
    assert(seq![inner].drop_first().len() == 0);
    let base = object_entries(old).unwrap();
    let child = object_entries(new).unwrap()[outer];
    assert(path_set(entry_of(base, outer), child, seq![inner], value));
    assert(entries_or_empty(entry_of(base, outer)) =~= Map::<Seq<char>, Value>::empty());
    let cm = object_entries(child).unwrap();
    assert(seq![inner][0] == inner);
    assert(path_set(None, cm[inner], seq![inner].drop_first(), value));
    assert(cm[inner] == value);
    assert(cm =~= Map::<Seq<char>, Value>::empty().insert(inner, value));
}

/// Relies on `Value`'s derived `Clone`: a deep copy, equal to the original.
#[verifier::external_body]
pub(crate) fn json_clone(v: &Value) -> (r: Value)
    ensures
        r == *v,
{
    v.clone()
}

/// `states` runs from `old` to `new`, each state coming from the one before by
/// setting at the matching path a value of which the matching entry of `fits` holds;
/// `values` are the values set.
pub open spec fn set_chain(
    old: Value,
    new: Value,
    states: Seq<Value>,
    values: Seq<Value>,
    paths: Seq<Seq<Seq<char>>>,
    fits: Seq<spec_fn(Value) -> bool>,
) -> bool {
    &&& states.len() == paths.len() + 1
    &&& values.len() == paths.len()
    &&& fits.len() == paths.len()
    &&& states[0] == old
    &&& states.last() == new
    &&& forall|i: int| 0 <= i < paths.len() ==> #[trigger] fits[i](values[i])
        && path_set(Some(states[i]), states[i + 1], paths[i], values[i])
}

/// `new` comes from `old` by setting, in order, at each of `paths` a value of which
/// the matching entry of `fits` holds.
pub open spec fn sets_applied(old: Value, new: Value, paths: Seq<Seq<Seq<char>>>, fits: Seq<spec_fn(Value) -> bool>) -> bool {
    exists|states: Seq<Value>, values: Seq<Value>| set_chain(old, new, states, values, paths, fits)
}

/// Sets `value` at a non-empty path.
pub(crate) fn set_field(target: &mut Value, path: Vec<&str>, value: Value)
    requires
        path@.len() > 0,
    ensures
        path_set(Some(*old(target)), *final(target), path_keys(path@), value),
{
    let _ = set_json_value(target, path.as_slice(), value);
}

} // verus!
