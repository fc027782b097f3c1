//! The property schema: the names of an agent species' properties, interned
//! once into a stable, dense index order.

use crate::error::SchemaError;
use vstd::prelude::*;

verus! {

/// The character sequences of a list of names, in the same order.
pub open spec fn name_views(names: Seq<String>) -> Seq<Seq<char>> {
    names.map_values(|name: String| name@)
}

/// The storage index of `name` in `names`, if it is one of them.
///
/// For names without duplicates this is the one position at which `name`
/// stands; see [`lemma_position_of_member`].
pub open spec fn position(names: Seq<Seq<char>>, name: Seq<char>) -> Option<int> {
    if names.contains(name) {
        Some(names.index_of(name))
    } else {
        None
    }
}

/// In a list of distinct names, the name at index `i` resolves to `i` and to
/// nothing else.
pub proof fn lemma_position_of_member(names: Seq<Seq<char>>, i: int)
    requires
        names.no_duplicates(),
        0 <= i < names.len(),
    ensures
        position(names, names[i]) == Some(i),
{
    assert(names.contains(names[i]));
    let j = names.index_of(names[i]);
    assert(0 <= j < names.len() && names[j] == names[i]);
}

/// An ordered set of distinct property names. The position of a name is its
/// storage index in every agent's value array; no name can be added or
/// removed once the schema exists.
pub struct PropertySchema {
    names: Vec<String>,
}

impl View for PropertySchema {
    type V = Seq<Seq<char>>;

    closed spec fn view(&self) -> Seq<Seq<char>> {
        name_views(self.names@)
    }
}

impl PropertySchema {
    /// Every schema holds distinct names.
    #[verifier::type_invariant]
    pub open spec fn well_formed(&self) -> bool {
        self@.no_duplicates()
    }

    /// Freezes `names`, in the order given, into a schema. Fails with
    /// `DuplicateProperty` exactly when some name occurs twice.
    pub fn intern(names: Vec<String>) -> (r: Result<PropertySchema, SchemaError>)
        ensures
            match r {
                Ok(schema) => schema@ == name_views(names@) && schema@.no_duplicates(),
                Err(e) => e == SchemaError::DuplicateProperty && !name_views(names@).no_duplicates(),
            },
    {
        let ghost views = name_views(names@);
        let n = names.len();
        let mut j: usize = 0;
        while j < n
            invariant
                n == names.len(),
                views == name_views(names@),
                j <= n,
                forall|a: int, b: int| 0 <= a < b < j ==> views[a] != views[b],
            decreases n - j,
        {
            let mut i: usize = 0;
            while i < j
                invariant
                    n == names.len(),
                    views == name_views(names@),
                    j < n,
                    i <= j,
                    forall|a: int| 0 <= a < i ==> views[a] != views[j as int],
                decreases j - i,
            {
                if names[i] == names[j] {
                    assert(views[i as int] == views[j as int]);
                    return Err(SchemaError::DuplicateProperty);
                }
                i += 1;
            }
            j += 1;
        }
        Ok(PropertySchema { names })
    }

    /// The number of properties.
    pub fn size(&self) -> (n: usize)
        ensures
            n == self@.len(),
    {
        self.names.len()
    }

    /// The name stored at index `i`.
    pub fn name(&self, i: usize) -> (name: &String)
        requires
            i < self@.len(),
        ensures
            name@ == self@[i as int],
    {
        &self.names[i]
    }

    /// Resolves an owned name to its storage index.
    pub fn index_of_name(&self, name: &String) -> (r: Result<usize, SchemaError>)
        ensures
            match r {
                Ok(i) => position(self@, name@) == Some(i as int),
                Err(e) => e == SchemaError::UnknownProperty && position(self@, name@).is_none(),
            },
    {
        proof {
            use_type_invariant(self);
        }
        let n = self.names.len();
        let mut i: usize = 0;
        while i < n
            invariant
                n == self.names.len(),
                i <= n,
                self@.no_duplicates(),
                forall|a: int| 0 <= a < i ==> self@[a] != name@,
            decreases n - i,
        {
            if self.names[i] == *name {
                proof {
                    lemma_position_of_member(self@, i as int);
                }
                return Ok(i);
            }
            i += 1;
        }
        Err(SchemaError::UnknownProperty)
    }

    /// Resolves `name` to its storage index, or fails with `UnknownProperty`
    /// when the schema does not hold it.
    pub fn index_of(&self, name: &str) -> (r: Result<usize, SchemaError>)
        ensures
            match r {
                Ok(i) => position(self@, name@) == Some(i as int),
                Err(e) => e == SchemaError::UnknownProperty && position(self@, name@).is_none(),
            },
    {
        let owned = name.to_owned();
        self.index_of_name(&owned)
    }
}

} // verus!
