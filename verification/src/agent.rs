//! Agents: one simulation entity each, a dense array of property values laid
//! out by a shared schema, advanced by folding the shared operation list over
//! the array.

use crate::error::{BuildError, StepError};
use crate::layout::{covers, dense, key_by_name, lay_out, name_keyed};
use crate::operation::{
    apply_all, apply_op, lemma_apply_all_stops_at_error, Operation, OperationList, OperationView,
};
use crate::property_map::entries;
use crate::schema::{position, PropertySchema};
use crate::shared::share;
use rustc_hash::FxHashMap;
use std::sync::Arc;
use vstd::prelude::*;

verus! {

/// The values behind a result, or its error.
pub open spec fn values_of(r: Result<Agent, StepError>) -> Result<Seq<i64>, StepError> {
    match r {
        Ok(agent) => Ok(agent.values()),
        Err(e) => Err(e),
    }
}

/// One simulation entity: a dense array of property values, one per index of
/// its schema, and shared handles to the schema and to the operation list.
pub struct Agent {
    schema: Arc<PropertySchema>,
    operations: Arc<OperationList>,
    values: Vec<i64>,
}

impl Agent {
    /// The property names, in storage order.
    pub closed spec fn names(&self) -> Seq<Seq<char>> {
        self.schema@
    }

    /// The operations that a step applies, in order.
    pub closed spec fn ops(&self) -> Seq<OperationView> {
        self.operations@
    }

    /// The property values, in storage order.
    pub closed spec fn values(&self) -> Seq<i64> {
        self.values@
    }

    /// Every agent holds exactly one value per property of its schema, and
    /// the names of its schema are distinct.
    #[verifier::type_invariant]
    pub open spec fn well_formed(&self) -> bool {
        &&& self.values().len() == self.names().len()
        &&& self.names().no_duplicates()
    }

    /// An agent that shares `schema` and `operations` and starts from the
    /// values that `properties` gives to the names of the schema. Fails with
    /// `IncompleteProperties` exactly when some name has no value.
    pub fn new(
        schema: Arc<PropertySchema>,
        operations: Arc<OperationList>,
        properties: &FxHashMap<String, i64>,
    ) -> (r: Result<Agent, BuildError>)
        ensures
            match r {
                Ok(agent) => {
                    &&& covers(entries(*properties), schema@)
                    &&& agent.names() == schema@
                    &&& agent.ops() == operations@
                    &&& agent.values() == dense(entries(*properties), schema@)
                },
                Err(e) => e == BuildError::IncompleteProperties && !covers(
                    entries(*properties),
                    schema@,
                ),
            },
    {
        match lay_out(&schema, properties) {
            Ok(values) => {
                proof {
                    use_type_invariant(&*schema);
                }
                Ok(Agent { schema, operations, values })
            },
            Err(e) => Err(e),
        }
    }

    /// The current value of the property called `key`, if the schema holds
    /// such a property.
    pub fn get_property(&self, key: &str) -> (r: Option<i64>)
        ensures
            r == match position(self.names(), key@) {
                Some(i) => Some(self.values()[i]),
                None => None,
            },
    {
        proof {
            use_type_invariant(self);
        }
        match self.schema.index_of(key) {
            Ok(i) => Some(self.values[i]),
            Err(_) => None,
        }
    }

    /// The number of property values, which is the size of the schema.
    pub fn len(&self) -> (n: usize)
        ensures
            n == self.values().len(),
            n == self.names().len(),
    {
        proof {
            use_type_invariant(self);
        }
        self.values.len()
    }

    /// The value stored at index `i`.
    pub fn value_at(&self, i: usize) -> (v: i64)
        requires
            i < self.values().len(),
        ensures
            v == self.values()[i as int],
    {
        self.values[i]
    }

    /// The schema that lays out this agent's values.
    pub fn schema(&self) -> (schema: &PropertySchema)
        ensures
            schema@ == self.names(),
    {
        &self.schema
    }

    /// Applies one operation, giving the agent with the resulting values.
    /// Fails with `UnknownProperty` when the schema lacks the property that
    /// the operation names, and with `Overflow` when the sum does not fit.
    pub fn apply(self, op: &Operation) -> (r: Result<Agent, StepError>)
        ensures
            values_of(r) == apply_op(self.names(), self.values(), op@),
            r matches Ok(next) ==> next.names() == self.names() && next.ops() == self.ops(),
    {
        proof {
            use_type_invariant(&self);
        }
        let Agent { schema, operations, mut values } = self;
        match op {
            Operation::AddToProperty { name, delta } => {
                match schema.index_of_name(name) {
                    Err(_) => Err(StepError::UnknownProperty),
                    Ok(i) => {
                        match values[i].checked_add(*delta) {
                            None => Err(StepError::Overflow),
                            Some(sum) => {
                                values.set(i, sum);
                                Ok(Agent { schema, operations, values })
                            },
                        }
                    },
                }
            },
        }
    }

    /// Advances the agent by one step: applies every operation of the shared
    /// list, in list order, and gives the agent with the resulting values.
    /// Fails with the error of the first operation that cannot be applied.
    pub fn step(self) -> (r: Result<Agent, StepError>)
        ensures
            values_of(r) == apply_all(self.names(), self.values(), self.ops()),
            r matches Ok(next) ==> {
                &&& next.names() == self.names()
                &&& next.ops() == self.ops()
                &&& next.values().len() == next.names().len()
            },
    {
        let operations = share(&self.operations);
        let n = operations.len();
        let ghost names = self.names();
        let ghost start = self.values();
        let ghost ops = self.ops();
        let mut agent = self;
        let mut k: usize = 0;
        while k < n
            invariant
                n == ops.len(),
                ops == operations@,
                names == self.names(),
                start == self.values(),
                ops == self.ops(),
                k <= n,
                agent.names() == names,
                agent.ops() == ops,
                apply_all(names, start, ops.take(k as int)) == Ok::<Seq<i64>, StepError>(agent.values()),
            decreases n - k,
        {
            let ghost before = agent.values();
            proof {
                assert(ops.take(k + 1).drop_last() == ops.take(k as int));
                assert(ops.take(k + 1).last() == ops[k as int]);
                assert(apply_all(names, start, ops.take(k + 1)) == apply_op(names, before, ops[k as int]));
            }
            match agent.apply(operations.get(k)) {
                Ok(next) => {
                    agent = next;
                },
                Err(e) => {
                    proof {
                        lemma_apply_all_stops_at_error(names, start, ops, k + 1);
                    }
                    return Err(e);
                },
            }
            k += 1;
        }
        proof {
            assert(ops.take(n as int) == ops);
            use_type_invariant(&agent);
        }
        Ok(agent)
    }

    /// An agent of the same species: the given values, which hold one value
    /// per property, and this agent's schema and operation list, shared.
    pub fn with_values(&self, values: Vec<i64>) -> (agent: Agent)
        requires
            values@.len() == self.names().len(),
        ensures
            agent.names() == self.names(),
            agent.ops() == self.ops(),
            agent.values() == values@,
    {
        proof {
            use_type_invariant(self);
        }
        Agent { schema: share(&self.schema), operations: share(&self.operations), values }
    }

    /// The agent's current values in name-keyed form.
    pub fn snapshot(&self) -> (map: FxHashMap<String, i64>)
        ensures
            entries(map) == name_keyed(self.names(), self.values()),
    {
        proof {
            use_type_invariant(self);
        }
        key_by_name(&self.schema, &self.values)
    }
}

impl Clone for Agent {
    /// A second agent with a copy of the value array and the same shared
    /// schema and operation list. The two arrays do not alias.
    fn clone(&self) -> (copy: Agent)
        ensures
            copy.names() == self.names(),
            copy.ops() == self.ops(),
            copy.values() == self.values(),
    {
        proof {
            use_type_invariant(self);
        }
        Agent {
            schema: share(&self.schema),
            operations: share(&self.operations),
            values: self.values.clone(),
        }
    }
}

} // verus!
