//! The two forms of an agent's state: keyed by name, as it enters and leaves
//! the core, and as a dense array in the index order of a schema, as the core
//! holds it. The conversions here are the only places where a name-keyed map
//! is read or filled.

use crate::error::BuildError;
use crate::property_map::{empty_map, entries, lookup, put};
use crate::schema::PropertySchema;
use rustc_hash::FxHashMap;
use vstd::prelude::*;

verus! {

/// The name-keyed form of `values` laid out by `names`.
pub open spec fn name_keyed(names: Seq<Seq<char>>, values: Seq<i64>) -> Map<Seq<char>, i64> {
    Map::new(|name: Seq<char>| names.contains(name), |name: Seq<char>| values[names.index_of(name)])
}

/// Whether `properties` has a value for every name of `names`.
pub open spec fn covers(properties: Map<Seq<char>, i64>, names: Seq<Seq<char>>) -> bool {
    forall|i: int| 0 <= i < names.len() ==> properties.contains_key(#[trigger] names[i])
}

/// The dense array that holds, at each index, the value that `properties`
/// gives to the name at that index.
pub open spec fn dense(properties: Map<Seq<char>, i64>, names: Seq<Seq<char>>) -> Seq<i64> {
    Seq::new(names.len(), |i: int| properties[names[i]])
}

/// In a prefix of a list of distinct names, a member resolves to the same
/// index as in the whole list.
proof fn lemma_position_of_member_prefix(names: Seq<Seq<char>>, len: int, key: Seq<char>)
    requires
        names.no_duplicates(),
        0 <= len <= names.len(),
        names.take(len).contains(key),
    ensures
        names.contains(key),
        names.take(len).index_of(key) == names.index_of(key),
        0 <= names.index_of(key) < len,
{
    let prefix = names.take(len);
    let j = prefix.index_of(key);
    assert(0 <= j < len && prefix[j] == key);
    assert(names[j] == key);
    let k = names.index_of(key);
    assert(0 <= k < names.len() && names[k] == key);
}

/// Lays the values of `properties` out in the index order of `schema`. Fails
/// with `IncompleteProperties` exactly when some name of the schema has no
/// value; entries under other names are ignored.
pub fn lay_out(schema: &PropertySchema, properties: &FxHashMap<String, i64>) -> (r: Result<
    Vec<i64>,
    BuildError,
>)
    ensures
        match r {
            Ok(values) => covers(entries(*properties), schema@) && values@ == dense(
                entries(*properties),
                schema@,
            ),
            Err(e) => e == BuildError::IncompleteProperties && !covers(entries(*properties), schema@),
        },
{
    let n = schema.size();
    let mut values: Vec<i64> = Vec::with_capacity(n);
    let mut i: usize = 0;
    while i < n
        invariant
            n == schema@.len(),
            i <= n,
            values@.len() == i,
            forall|j: int| 0 <= j < i ==> entries(*properties).contains_key(#[trigger] schema@[j]),
            forall|j: int| 0 <= j < i ==> values@[j] == entries(*properties)[schema@[j]],
        decreases n - i,
    {
        match lookup(properties, schema.name(i).as_str()) {
            Some(value) => {
                values.push(*value);
            },
            None => {
                return Err(BuildError::IncompleteProperties);
            },
        }
        i += 1;
    }
    Ok(values)
}

/// The name-keyed form of `values`, which holds one value per name of
/// `schema`: every name maps to the value at its index.
pub fn key_by_name(schema: &PropertySchema, values: &Vec<i64>) -> (map: FxHashMap<String, i64>)
    requires
        values@.len() == schema@.len(),
    ensures
        entries(map) == name_keyed(schema@, values@),
{
    proof {
        use_type_invariant(schema);
    }
    let n = values.len();
    let mut map = empty_map();
    let mut i: usize = 0;
    while i < n
        invariant
            n == values@.len(),
            n == schema@.len(),
            schema@.no_duplicates(),
            i <= n,
            entries(map) == name_keyed(schema@.take(i as int), values@),
        decreases n - i,
    {
        let name = schema.name(i).clone();
        put(&mut map, name, values[i]);
        proof {
            let names = schema@;
            let before = names.take(i as int);
            let after = names.take(i + 1);
            assert(after == before.push(names[i as int]));
            assert forall|key: Seq<char>| #[trigger] after.contains(key) implies name_keyed(
                after,
                values@,
            )[key] == name_keyed(before, values@).insert(names[i as int], values@[i as int])[key] by {
                lemma_position_of_member_prefix(names, i + 1, key);
                if key != names[i as int] {
                    assert(before.contains(key)) by {
                        let j = after.index_of(key);
                        assert(before[j] == key);
                    }
                    lemma_position_of_member_prefix(names, i as int, key);
                }
            }
            assert(name_keyed(after, values@) =~= name_keyed(before, values@).insert(
                names[i as int],
                values@[i as int],
            )) by {
                assert forall|key: Seq<char>| after.contains(key) <==> (before.contains(key) || key
                    == names[i as int]) by {
                    if before.contains(key) {
                        let j = before.index_of(key);
                        assert(after[j] == key);
                    }
                    if key == names[i as int] {
                        assert(after[i as int] == key);
                    }
                    if after.contains(key) {
                        let j = after.index_of(key);
                        if j < i {
                            assert(before[j] == key);
                        }
                    }
                }
            }
        }
        i += 1;
    }
    proof {
        assert(schema@.take(n as int) == schema@);
    }
    map
}

} // verus!
