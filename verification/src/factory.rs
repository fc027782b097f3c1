//! The agent factory: a frozen schema, a template of initial values laid out
//! by it, and an operation list, from which any number of agents is made.
//! A factory is built in two phases: a builder collects the parts, and
//! `build` checks them and freezes them.

use crate::agent::Agent;
use crate::error::BuildError;
use crate::layout::{covers, dense};
use crate::operation::{operation_views, Operation, OperationList, OperationView};
use crate::property_map::entries;
use crate::schema::PropertySchema;
use rustc_hash::FxHashMap;
use std::sync::Arc;
use vstd::prelude::*;

verus! {

/// Whether a build from these parts succeeds, and the error if it does not:
/// a missing schema comes first, then missing initial values, then a
/// property of the schema without an initial value.
pub open spec fn build_failure(
    names: Option<Seq<Seq<char>>>,
    properties: Option<Map<Seq<char>, i64>>,
) -> Option<BuildError> {
    match (names, properties) {
        (None, _) => Some(BuildError::MissingSchema),
        (Some(_), None) => Some(BuildError::MissingInitialValues),
        (Some(names), Some(properties)) => if covers(properties, names) {
            None
        } else {
            Some(BuildError::IncompleteProperties)
        },
    }
}

/// Collects the parts of an [`AgentFactory`].
pub struct AgentFactoryBuilder {
    schema: Option<PropertySchema>,
    initial_values: Option<FxHashMap<String, i64>>,
    operations: Vec<Operation>,
}

impl AgentFactoryBuilder {
    /// The names of the schema supplied so far, if any.
    pub closed spec fn names(&self) -> Option<Seq<Seq<char>>> {
        match self.schema {
            Some(schema) => Some(schema@),
            None => None,
        }
    }

    /// The initial values supplied so far, if any.
    pub closed spec fn properties(&self) -> Option<Map<Seq<char>, i64>> {
        match self.initial_values {
            Some(map) => Some(entries(map)),
            None => None,
        }
    }

    /// The operations supplied so far, in order.
    pub closed spec fn ops(&self) -> Seq<OperationView> {
        operation_views(self.operations@)
    }

    /// A builder that holds no schema, no initial values and no operations.
    pub fn new() -> (builder: AgentFactoryBuilder)
        ensures
            builder.names().is_none(),
            builder.properties().is_none(),
            builder.ops().len() == 0,
    {
        AgentFactoryBuilder { schema: None, initial_values: None, operations: Vec::new() }
    }

    /// Supplies the schema, replacing an earlier one.
    pub fn schema(self, schema: PropertySchema) -> (builder: AgentFactoryBuilder)
        ensures
            builder.names() == Some(schema@),
            builder.properties() == self.properties(),
            builder.ops() == self.ops(),
    {
        AgentFactoryBuilder {
            schema: Some(schema),
            initial_values: self.initial_values,
            operations: self.operations,
        }
    }

    /// Supplies the initial values, keyed by property name, replacing earlier
    /// ones.
    pub fn initial_values(self, properties: FxHashMap<String, i64>) -> (builder:
        AgentFactoryBuilder)
        ensures
            builder.names() == self.names(),
            builder.properties() == Some(entries(properties)),
            builder.ops() == self.ops(),
    {
        AgentFactoryBuilder {
            schema: self.schema,
            initial_values: Some(properties),
            operations: self.operations,
        }
    }

    /// Appends one operation to the operations supplied so far.
    pub fn add_operation(self, op: Operation) -> (builder: AgentFactoryBuilder)
        ensures
            builder.names() == self.names(),
            builder.properties() == self.properties(),
            builder.ops() == self.ops().push(op@),
    {
        let mut operations = self.operations;
        operations.push(op);
        AgentFactoryBuilder {
            schema: self.schema,
            initial_values: self.initial_values,
            operations,
        }
    }

    /// Freezes the parts into a factory. The initial values are laid out once
    /// in the index order of the schema; entries under names that the schema
    /// does not hold are ignored. Fails as [`build_failure`] says.
    pub fn build(self) -> (r: Result<AgentFactory, BuildError>)
        ensures
            match r {
                Ok(factory) => {
                    &&& build_failure(self.names(), self.properties()).is_none()
                    &&& factory.names() == self.names().unwrap()
                    &&& factory.ops() == self.ops()
                    &&& factory.template() == dense(
                        self.properties().unwrap(),
                        self.names().unwrap(),
                    )
                },
                Err(e) => build_failure(self.names(), self.properties()) == Some(e),
            },
    {
        let AgentFactoryBuilder { schema, initial_values, operations } = self;
        let schema = match schema {
            Some(schema) => schema,
            None => {
                return Err(BuildError::MissingSchema);
            },
        };
        let properties = match initial_values {
            Some(properties) => properties,
            None => {
                return Err(BuildError::MissingInitialValues);
            },
        };
        match Agent::new(Arc::new(schema), Arc::new(OperationList::new(operations)), &properties) {
            Ok(prototype) => Ok(AgentFactory { prototype }),
            Err(e) => Err(e),
        }
    }
}

/// A reusable template for the agents of one species.
pub struct AgentFactory {
    prototype: Agent,
}

impl AgentFactory {
    /// The property names, in storage order.
    pub closed spec fn names(&self) -> Seq<Seq<char>> {
        self.prototype.names()
    }

    /// The operations that every agent of this factory applies in a step.
    pub closed spec fn ops(&self) -> Seq<OperationView> {
        self.prototype.ops()
    }

    /// The initial values, in storage order.
    pub closed spec fn template(&self) -> Seq<i64> {
        self.prototype.values()
    }

    /// A new agent that holds its own copy of the template array and shares
    /// the factory's schema and operation list.
    pub fn create_agent(&self) -> (agent: Agent)
        ensures
            agent.names() == self.names(),
            agent.ops() == self.ops(),
            agent.values() == self.template(),
            agent.values().len() == agent.names().len(),
    {
        let agent = self.prototype.clone();
        proof {
            use_type_invariant(&agent);
        }
        agent
    }

    /// A new agent of this factory's species that starts from the values that
    /// `properties` gives to the names of the schema, not from the template.
    /// Fails with `IncompleteProperties` exactly when some name has no value.
    pub fn create_agent_from(&self, properties: &FxHashMap<String, i64>) -> (r: Result<
        Agent,
        BuildError,
    >)
        ensures
            match r {
                Ok(agent) => {
                    &&& covers(entries(*properties), self.names())
                    &&& agent.names() == self.names()
                    &&& agent.ops() == self.ops()
                    &&& agent.values() == dense(entries(*properties), self.names())
                },
                Err(e) => e == BuildError::IncompleteProperties && !covers(
                    entries(*properties),
                    self.names(),
                ),
            },
    {
        match crate::layout::lay_out(self.prototype.schema(), properties) {
            Ok(values) => Ok(self.prototype.with_values(values)),
            Err(e) => Err(e),
        }
    }

    /// The schema that lays out the agents of this factory.
    pub fn schema(&self) -> (schema: &PropertySchema)
        ensures
            schema@ == self.names(),
    {
        self.prototype.schema()
    }
}

} // verus!
