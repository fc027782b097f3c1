//! Name-keyed property maps.
//!
//! Property values enter and leave the core keyed by name, in an
//! `FxHashMap<String, i64>`. Inside the core they live in dense arrays; the
//! functions here are the only places where such a map is touched. The hash
//! map itself is not verified: its contents are named by [`entries`], and the
//! three operations on it are believed to act on those contents as the
//! standard library documents for `HashMap`.

use rustc_hash::FxHashMap;
use vstd::prelude::*;

verus! {

/// `rustc_hash::FxBuildHasher`, the hasher factory behind `FxHashMap`. It is
/// a unit struct that always starts its hasher from the same state, so a map
/// built on it behaves the same in every process.
#[verifier::external_type_specification]
#[verifier::external_body]
pub struct ExFxBuildHasher(rustc_hash::FxBuildHasher);

/// The name-to-value pairs that a property map holds.
pub uninterp spec fn entries(m: FxHashMap<String, i64>) -> Map<Seq<char>, i64>;

/// `FxHashMap::default()`: a map that holds nothing.
#[verifier::external_body]
pub(crate) fn empty_map() -> (map: FxHashMap<String, i64>)
    ensures
        forall|name: Seq<char>| !entries(map).contains_key(name),
{
    FxHashMap::default()
}

/// `HashMap::insert` on an `FxHashMap`: afterwards `name` maps to `value`,
/// replacing an earlier value for the same name, and every other pair stays.
#[verifier::external_body]
pub(crate) fn put(m: &mut FxHashMap<String, i64>, name: String, value: i64)
    ensures
        entries(*final(m)) == entries(*old(m)).insert(name@, value),
{
    m.insert(name, value);
}

/// `HashMap::get` on an `FxHashMap`: the value stored under `name`, if any.
#[verifier::external_body]
pub(crate) fn lookup<'a>(m: &'a FxHashMap<String, i64>, name: &str) -> (r: Option<&'a i64>)
    ensures
        match r {
            Some(value) => entries(*m).contains_key(name@) && *value == entries(*m)[name@],
            None => !entries(*m).contains_key(name@),
        },
{
    m.get(name)
}

} // verus!
