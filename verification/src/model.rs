//! The model: the owner of one homogeneous agent population, and the run loop
//! that steps every agent and records the population after each step.

use crate::agent::Agent;
use crate::datadict::{snapshot_views, DataDict};
use crate::error::{BuildError, StepError};
use crate::factory::{build_failure, AgentFactory, AgentFactoryBuilder};
use crate::layout::{covers, dense, name_keyed};
use crate::operation::{apply_all, Operation, OperationView};
use crate::property_map::entries;
use crate::schema::PropertySchema;
use rustc_hash::FxHashMap;
use vstd::prelude::*;

verus! {

/// The value arrays of a list of agents, by agent index.
pub open spec fn value_arrays(agents: Seq<Agent>) -> Seq<Seq<i64>> {
    agents.map_values(|agent: Agent| agent.values())
}

/// The population after one step: every agent's array after the operations
/// were applied to it in list order. If some agent cannot be stepped, the
/// error of the first such agent, by agent index.
pub open spec fn step_population(
    names: Seq<Seq<char>>,
    ops: Seq<OperationView>,
    population: Seq<Seq<i64>>,
) -> Result<Seq<Seq<i64>>, StepError>
    decreases population.len(),
{
    if population.len() == 0 {
        Ok(population)
    } else {
        match step_population(names, ops, population.drop_last()) {
            Err(e) => Err(e),
            Ok(front) => match apply_all(names, population.last(), ops) {
                Ok(values) => Ok(front.push(values)),
                Err(e) => Err(e),
            },
        }
    }
}

/// The population after `steps` steps, or the error of the first step that
/// could not be completed.
pub open spec fn population_after(
    names: Seq<Seq<char>>,
    ops: Seq<OperationView>,
    population: Seq<Seq<i64>>,
    steps: nat,
) -> Result<Seq<Seq<i64>>, StepError>
    decreases steps,
{
    if steps == 0 {
        Ok(population)
    } else {
        match population_after(names, ops, population, (steps - 1) as nat) {
            Err(e) => Err(e),
            Ok(before) => step_population(names, ops, before),
        }
    }
}

/// The name-keyed form of every array of a population, by agent index.
pub open spec fn keyed_population(names: Seq<Seq<char>>, population: Seq<Seq<i64>>) -> Seq<
    Map<Seq<char>, i64>,
> {
    population.map_values(|values: Seq<i64>| name_keyed(names, values))
}

/// The row groups that a run of `steps` steps records when every step can be
/// completed: the row group at position `s` is the population after `s + 1`
/// steps, in name-keyed form.
pub open spec fn run_rows(
    names: Seq<Seq<char>>,
    ops: Seq<OperationView>,
    population: Seq<Seq<i64>>,
    steps: nat,
) -> Seq<Seq<Map<Seq<char>, i64>>> {
    Seq::new(
        steps,
        |s: int| keyed_population(names, population_after(names, ops, population, (s + 1) as nat).unwrap()),
    )
}

/// The step indices that a run of `steps` steps records: `0, 1, ..`.
pub open spec fn run_indices(steps: nat) -> Seq<usize> {
    Seq::new(steps, |s: int| s as usize)
}

/// A step of the population succeeds when every agent can be stepped, and
/// then holds each agent's result at that agent's index.
pub proof fn lemma_step_population_ok(
    names: Seq<Seq<char>>,
    ops: Seq<OperationView>,
    population: Seq<Seq<i64>>,
    next: Seq<Seq<i64>>,
)
    requires
        next.len() == population.len(),
        forall|j: int| 0 <= j < population.len() ==> apply_all(names, #[trigger] population[j], ops) == Ok::<Seq<i64>, StepError>(next[j]),
    ensures
        step_population(names, ops, population) == Ok::<Seq<Seq<i64>>, StepError>(next),
    decreases population.len(),
{
    if population.len() > 0 {
        let front = population.drop_last();
        assert forall|j: int| 0 <= j < front.len() implies apply_all(names, #[trigger] front[j], ops) == Ok::<Seq<i64>, StepError>(
            next.drop_last()[j],
        ) by {
            assert(front[j] == population[j]);
        }
        lemma_step_population_ok(names, ops, front, next.drop_last());
        assert(population.last() == population[population.len() - 1]);
        assert(next.drop_last().push(next.last()) == next);
    } else {
        assert(population == next);
    }
}

/// A step of the population fails with the error of the first agent, by
/// agent index, that cannot be stepped.
pub proof fn lemma_step_population_err(
    names: Seq<Seq<char>>,
    ops: Seq<OperationView>,
    population: Seq<Seq<i64>>,
    first: int,
    e: StepError,
)
    requires
        0 <= first < population.len(),
        forall|j: int| 0 <= j < first ==> apply_all(names, #[trigger] population[j], ops) is Ok,
        apply_all(names, population[first], ops) == Err::<Seq<i64>, StepError>(e),
    ensures
        step_population(names, ops, population) == Err::<Seq<Seq<i64>>, StepError>(e),
    decreases population.len(),
{
    let front = population.drop_last();
    if first == population.len() - 1 {
        let next = Seq::new(front.len(), |j: int| apply_all(names, front[j], ops).unwrap());
        assert forall|j: int| 0 <= j < front.len() implies apply_all(names, #[trigger] front[j], ops) == Ok::<Seq<i64>, StepError>(
            next[j],
        ) by {
            assert(front[j] == population[j]);
        }
        lemma_step_population_ok(names, ops, front, next);
    } else {
        assert forall|j: int| 0 <= j < first implies apply_all(names, #[trigger] front[j], ops) is Ok by {
            assert(front[j] == population[j]);
        }
        assert(front[first] == population[first]);
        lemma_step_population_err(names, ops, front, first, e);
    }
}

/// Once a step has failed, the run has failed: the error of the first `k`
/// steps is the error of any longer run.
pub proof fn lemma_population_after_stops_at_error(
    names: Seq<Seq<char>>,
    ops: Seq<OperationView>,
    population: Seq<Seq<i64>>,
    k: nat,
    steps: nat,
)
    requires
        k <= steps,
        population_after(names, ops, population, k) is Err,
    ensures
        population_after(names, ops, population, steps) == population_after(names, ops, population, k),
    decreases steps,
{
    if k < steps {
        lemma_population_after_stops_at_error(names, ops, population, k, (steps - 1) as nat);
    }
}

/// Whether `r` is the outcome of running a model with these names,
/// operations and population for `steps` steps: the log of the whole run, or
/// the error of the first step that cannot be completed.
pub open spec fn is_run_of(
    r: Result<DataDict, StepError>,
    names: Seq<Seq<char>>,
    ops: Seq<OperationView>,
    population: Seq<Seq<i64>>,
    steps: nat,
) -> bool {
    match r {
        Ok(data) => {
            &&& population_after(names, ops, population, steps) is Ok
            &&& data.rows() == run_rows(names, ops, population, steps)
            &&& data.step_indices@ == run_indices(steps)
        },
        Err(e) => population_after(names, ops, population, steps) == Err::<Seq<Seq<i64>>, StepError>(e),
    }
}

/// Whether two outcomes of a run are the same: the same error, or logs with
/// the same step indices and the same name-to-value pairs in every row.
pub open spec fn same_outcome(first: Result<DataDict, StepError>, second: Result<DataDict, StepError>) -> bool {
    match (first, second) {
        (Ok(a), Ok(b)) => a.rows() == b.rows() && a.step_indices@ == b.step_indices@,
        (Err(a), Err(b)) => a == b,
        _ => false,
    }
}

/// Determinism of a run: whatever two runs of the same length over the same
/// names, operations and population give, they give the same.
pub proof fn lemma_runs_agree(
    names: Seq<Seq<char>>,
    ops: Seq<OperationView>,
    population: Seq<Seq<i64>>,
    steps: nat,
    first: Result<DataDict, StepError>,
    second: Result<DataDict, StepError>,
)
    requires
        is_run_of(first, names, ops, population, steps),
        is_run_of(second, names, ops, population, steps),
    ensures
        same_outcome(first, second),
{
}

/// The values of one agent after `steps` steps, taken by itself, or the
/// error of the first step that it cannot complete.
pub open spec fn trajectory(
    names: Seq<Seq<char>>,
    ops: Seq<OperationView>,
    values: Seq<i64>,
    steps: nat,
) -> Result<Seq<i64>, StepError>
    decreases steps,
{
    if steps == 0 {
        Ok(values)
    } else {
        match trajectory(names, ops, values, (steps - 1) as nat) {
            Err(e) => Err(e),
            Ok(before) => apply_all(names, before, ops),
        }
    }
}

/// A step of the population that succeeds has stepped every agent by itself.
pub proof fn lemma_step_population_is_pointwise(
    names: Seq<Seq<char>>,
    ops: Seq<OperationView>,
    population: Seq<Seq<i64>>,
)
    requires
        step_population(names, ops, population) is Ok,
    ensures
        step_population(names, ops, population).unwrap().len() == population.len(),
        forall|j: int| 0 <= j < population.len() ==> apply_all(names, #[trigger] population[j], ops) == Ok::<Seq<i64>, StepError>(
            step_population(names, ops, population).unwrap()[j],
        ),
    decreases population.len(),
{
    if population.len() > 0 {
        let front = population.drop_last();
        lemma_step_population_is_pointwise(names, ops, front);
        assert forall|j: int| 0 <= j < population.len() implies apply_all(
            names,
            #[trigger] population[j],
            ops,
        ) == Ok::<Seq<i64>, StepError>(step_population(names, ops, population).unwrap()[j]) by {
            if j < front.len() {
                assert(front[j] == population[j]);
            }
        }
    }
}

/// A run of the population that succeeds has, after every number of steps up
/// to its length, every agent where that agent's own trajectory puts it.
pub proof fn lemma_population_after_is_pointwise(
    names: Seq<Seq<char>>,
    ops: Seq<OperationView>,
    population: Seq<Seq<i64>>,
    steps: nat,
)
    requires
        population_after(names, ops, population, steps) is Ok,
    ensures
        population_after(names, ops, population, steps).unwrap().len() == population.len(),
        forall|j: int| 0 <= j < population.len() ==> trajectory(names, ops, #[trigger] population[j], steps) == Ok::<Seq<i64>, StepError>(
            population_after(names, ops, population, steps).unwrap()[j],
        ),
    decreases steps,
{
    if steps > 0 {
        let earlier = (steps - 1) as nat;
        lemma_population_after_is_pointwise(names, ops, population, earlier);
        let before = population_after(names, ops, population, earlier).unwrap();
        lemma_step_population_is_pointwise(names, ops, before);
    }
}

/// A population whose agents can each complete `steps` steps by themselves
/// can complete them together.
pub proof fn lemma_population_after_from_trajectories(
    names: Seq<Seq<char>>,
    ops: Seq<OperationView>,
    population: Seq<Seq<i64>>,
    steps: nat,
)
    requires
        forall|j: int| 0 <= j < population.len() ==> trajectory(names, ops, #[trigger] population[j], steps) is Ok,
    ensures
        population_after(names, ops, population, steps) is Ok,
    decreases steps,
{
    if steps > 0 {
        let earlier = (steps - 1) as nat;
        lemma_population_after_from_trajectories(names, ops, population, earlier);
        lemma_population_after_is_pointwise(names, ops, population, earlier);
        let before = population_after(names, ops, population, earlier).unwrap();
        let next = Seq::new(before.len(), |j: int| apply_all(names, before[j], ops).unwrap());
        assert forall|j: int| 0 <= j < before.len() implies apply_all(names, #[trigger] before[j], ops) == Ok::<Seq<i64>, StepError>(
            next[j],
        ) by {
            assert(trajectory(names, ops, population[j], earlier) == Ok::<Seq<i64>, StepError>(before[j]));
            assert(trajectory(names, ops, population[j], steps) is Ok);
        }
        lemma_step_population_ok(names, ops, before, next);
    }
}

/// Non-interaction: in a run that succeeds, the agent at index `j` is after
/// every step where it would be as the sole agent of a model with the same
/// schema and operations, and the same row is recorded for it.
pub proof fn lemma_agents_do_not_interact(
    names: Seq<Seq<char>>,
    ops: Seq<OperationView>,
    population: Seq<Seq<i64>>,
    steps: nat,
    j: int,
)
    requires
        0 <= j < population.len(),
        population_after(names, ops, population, steps) is Ok,
    ensures
        population_after(names, ops, seq![population[j]], steps) == Ok::<Seq<Seq<i64>>, StepError>(
            seq![population_after(names, ops, population, steps).unwrap()[j]],
        ),
        forall|s: int| 0 <= s < steps ==> (#[trigger] run_rows(names, ops, seq![population[j]], steps)[s])
            == seq![run_rows(names, ops, population, steps)[s][j]],
{
    let alone = seq![population[j]];
    assert forall|s: nat| s <= steps implies {
        &&& population_after(names, ops, population, s) is Ok
        &&& population_after(names, ops, population, s).unwrap().len() == population.len()
        &&& #[trigger] population_after(names, ops, alone, s) == Ok::<Seq<Seq<i64>>, StepError>(
            seq![population_after(names, ops, population, s).unwrap()[j]],
        )
    } by {
        if population_after(names, ops, population, s) is Err {
            lemma_population_after_stops_at_error(names, ops, population, s, steps);
        }
        lemma_population_after_is_pointwise(names, ops, population, s);
        assert(trajectory(names, ops, alone[0], s) is Ok);
        lemma_population_after_from_trajectories(names, ops, alone, s);
        lemma_population_after_is_pointwise(names, ops, alone, s);
        assert(population_after(names, ops, alone, s).unwrap() == seq![
            population_after(names, ops, population, s).unwrap()[j],
        ]);
    }
    assert forall|s: int| 0 <= s < steps implies (#[trigger] run_rows(names, ops, alone, steps)[s])
        == seq![run_rows(names, ops, population, steps)[s][j]] by {
        let after = (s + 1) as nat;
        assert(population_after(names, ops, alone, after) == Ok::<Seq<Seq<i64>>, StepError>(
            seq![population_after(names, ops, population, after).unwrap()[j]],
        ));
    }
}

/// One homogeneous agent population: every agent shares the schema and the
/// operation list of the model's factory.
pub struct Model {
    name: String,
    factory: AgentFactory,
    agents: Vec<Agent>,
}

impl Model {
    /// The model's name.
    pub closed spec fn name_view(&self) -> Seq<char> {
        self.name@
    }

    /// The property names, in storage order.
    pub closed spec fn names(&self) -> Seq<Seq<char>> {
        self.factory.names()
    }

    /// The operations that a step applies to every agent, in order.
    pub closed spec fn ops(&self) -> Seq<OperationView> {
        self.factory.ops()
    }

    /// The value array of every agent, by agent index.
    pub closed spec fn population(&self) -> Seq<Seq<i64>> {
        value_arrays(self.agents@)
    }

    /// Whether `agents` all share the schema and the operations of `factory`.
    pub closed spec fn homogeneous(factory: AgentFactory, agents: Seq<Agent>) -> bool {
        forall|j: int| 0 <= j < agents.len() ==> (#[trigger] agents[j]).names() == factory.names()
            && agents[j].ops() == factory.ops()
    }

    /// All agents of a model share one schema and one operation list.
    #[verifier::type_invariant]
    pub closed spec fn well_formed(&self) -> bool {
        Self::homogeneous(self.factory, self.agents@)
    }

    /// The model's name.
    pub fn name(&self) -> (name: &String)
        ensures
            name@ == self.name_view(),
    {
        &self.name
    }

    /// The number of agents.
    pub fn agent_count(&self) -> (n: usize)
        ensures
            n == self.population().len(),
    {
        self.agents.len()
    }

    /// The agent at index `j`.
    pub fn agent(&self, j: usize) -> (agent: &Agent)
        requires
            j < self.population().len(),
        ensures
            agent.values() == self.population()[j as int],
            agent.names() == self.names(),
            agent.ops() == self.ops(),
    {
        proof {
            use_type_invariant(self);
        }
        &self.agents[j]
    }

    /// Advances every agent by one step. Fails with the error of the first
    /// agent, by agent index, that cannot be stepped, and then leaves the
    /// population as it was.
    pub fn step(&mut self) -> (r: Result<(), StepError>)
        ensures
            final(self).name_view() == old(self).name_view(),
            final(self).names() == old(self).names(),
            final(self).ops() == old(self).ops(),
            match r {
                Ok(_) => step_population(old(self).names(), old(self).ops(), old(self).population()) == Ok::<Seq<Seq<i64>>, StepError>(
                    final(self).population(),
                ),
                Err(e) => {
                    &&& step_population(old(self).names(), old(self).ops(), old(self).population()) == Err::<Seq<Seq<i64>>, StepError>(e)
                    &&& final(self).population() == old(self).population()
                },
            },
    {
        proof {
            use_type_invariant(&*self);
        }
        let n = self.agents.len();
        let ghost names = self.names();
        let ghost ops = self.ops();
        let ghost population = self.population();
        let mut next: Vec<Agent> = Vec::with_capacity(n);
        let mut j: usize = 0;
        while j < n
            invariant
                n == self.agents@.len(),
                j <= n,
                next@.len() == j,
                names == self.names(),
                ops == self.ops(),
                population == self.population(),
                population == value_arrays(self.agents@),
                Self::homogeneous(self.factory, self.agents@),
                Self::homogeneous(self.factory, next@),
                forall|i: int| 0 <= i < j ==> apply_all(names, #[trigger] population[i], ops) == Ok::<Seq<i64>, StepError>(
                    next@[i].values(),
                ),
            decreases n - j,
        {
            match self.agents[j].clone().step() {
                Ok(agent) => {
                    next.push(agent);
                },
                Err(e) => {
                    proof {
                        lemma_step_population_err(names, ops, population, j as int, e);
                    }
                    return Err(e);
                },
            }
            j += 1;
        }
        proof {
            lemma_step_population_ok(names, ops, population, value_arrays(next@));
        }
        self.agents = next;
        Ok(())
    }

    /// The current values of every agent, by agent index, in name-keyed form.
    pub fn snapshot(&self) -> (group: Vec<FxHashMap<String, i64>>)
        ensures
            snapshot_views(group@) == keyed_population(self.names(), self.population()),
    {
        proof {
            use_type_invariant(self);
        }
        let n = self.agents.len();
        let mut group: Vec<FxHashMap<String, i64>> = Vec::with_capacity(n);
        let mut j: usize = 0;
        while j < n
            invariant
                n == self.agents@.len(),
                j <= n,
                group@.len() == j,
                Self::homogeneous(self.factory, self.agents@),
                forall|i: int| 0 <= i < j ==> entries(#[trigger] group@[i]) == name_keyed(
                    self.names(),
                    self.agents@[i].values(),
                ),
            decreases n - j,
        {
            group.push(self.agents[j].snapshot());
            j += 1;
        }
        assert(snapshot_views(group@) == keyed_population(self.names(), self.population()));
        group
    }

    /// Runs the model for exactly `step_count` steps and gives the log of the
    /// run: after each step, every agent has been replaced by its stepped
    /// self and the population has been recorded under the step's index,
    /// starting at 0. Fails with the error of the first step that cannot be
    /// completed; nothing of the run is handed out then.
    pub fn run(self, step_count: usize) -> (r: Result<DataDict, StepError>)
        ensures
            is_run_of(r, self.names(), self.ops(), self.population(), step_count as nat),
    {
        let ghost names = self.names();
        let ghost ops = self.ops();
        let ghost start = self.population();
        let mut model = self;
        let mut data = DataDict::new();
        let mut s: usize = 0;
        while s < step_count
            invariant
                s <= step_count,
                names == self.names(),
                ops == self.ops(),
                start == self.population(),
                model.names() == names,
                model.ops() == ops,
                population_after(names, ops, start, s as nat) == Ok::<Seq<Seq<i64>>, StepError>(model.population()),
                data.rows() == run_rows(names, ops, start, s as nat),
                data.step_indices@ == run_indices(s as nat),
            decreases step_count - s,
        {
            match model.step() {
                Ok(_) => {},
                Err(e) => {
                    proof {
                        lemma_population_after_stops_at_error(names, ops, start, (s + 1) as nat, step_count as nat);
                    }
                    return Err(e);
                },
            }
            data.record(s, model.snapshot());
            proof {
                assert(run_rows(names, ops, start, (s + 1) as nat) == run_rows(names, ops, start, s as nat).push(
                    keyed_population(names, model.population()),
                ));
                assert(run_indices((s + 1) as nat) == run_indices(s as nat).push(s));
            }
            s += 1;
        }
        Ok(data)
    }
}

/// The name-to-value pairs of each map of a list, in the same order.
pub open spec fn property_views(maps: Seq<FxHashMap<String, i64>>) -> Seq<Map<Seq<char>, i64>> {
    maps.map_values(|map: FxHashMap<String, i64>| entries(map))
}

/// Whether each of `individuals` has a value for every name of `names`.
pub open spec fn all_cover(individuals: Seq<Map<Seq<char>, i64>>, names: Seq<Seq<char>>) -> bool {
    forall|k: int| 0 <= k < individuals.len() ==> covers(#[trigger] individuals[k], names)
}

/// Whether the build of a model from these parts succeeds, and the error if
/// it does not: the errors of the factory come first, in their order, then
/// an individual agent that lacks a value for a property of the schema.
pub open spec fn model_build_failure(
    names: Option<Seq<Seq<char>>>,
    properties: Option<Map<Seq<char>, i64>>,
    individuals: Seq<Map<Seq<char>, i64>>,
) -> Option<BuildError> {
    match build_failure(names, properties) {
        Some(e) => Some(e),
        None => if all_cover(individuals, names.unwrap()) {
            None
        } else {
            Some(BuildError::IncompleteProperties)
        },
    }
}

/// The population that a model starts from: `count` copies of the template,
/// then one array for each individual agent, in the order they were added.
pub open spec fn initial_population(
    names: Seq<Seq<char>>,
    properties: Map<Seq<char>, i64>,
    count: nat,
    individuals: Seq<Map<Seq<char>, i64>>,
) -> Seq<Seq<i64>> {
    Seq::new(count, |j: int| dense(properties, names)) + individuals.map_values(
        |individual: Map<Seq<char>, i64>| dense(individual, names),
    )
}

/// Collects the parts of a [`Model`]: a name, the parts of its agent factory,
/// and how many agents to make.
pub struct ModelBuilder {
    name: String,
    parts: AgentFactoryBuilder,
    count: usize,
    individuals: Vec<FxHashMap<String, i64>>,
}

impl ModelBuilder {
    /// The name that the model will have.
    pub closed spec fn name_view(&self) -> Seq<char> {
        self.name@
    }

    /// The names of the schema supplied so far, if any.
    pub closed spec fn names(&self) -> Option<Seq<Seq<char>>> {
        self.parts.names()
    }

    /// The initial values of the template supplied so far, if any.
    pub closed spec fn properties(&self) -> Option<Map<Seq<char>, i64>> {
        self.parts.properties()
    }

    /// The operations supplied so far, in order.
    pub closed spec fn ops(&self) -> Seq<OperationView> {
        self.parts.ops()
    }

    /// The number of agents that will start from the template.
    pub closed spec fn count(&self) -> nat {
        self.count as nat
    }

    /// The initial values of the agents that will not start from the
    /// template, in the order they were added.
    pub closed spec fn individuals(&self) -> Seq<Map<Seq<char>, i64>> {
        property_views(self.individuals@)
    }

    /// A builder for a model called `name`, with no schema, no initial
    /// values, no operations and no agents.
    pub fn new(name: &str) -> (builder: ModelBuilder)
        ensures
            builder.name_view() == name@,
            builder.names().is_none(),
            builder.properties().is_none(),
            builder.ops().len() == 0,
            builder.count() == 0,
            builder.individuals().len() == 0,
    {
        ModelBuilder {
            name: name.to_owned(),
            parts: AgentFactoryBuilder::new(),
            count: 0,
            individuals: Vec::new(),
        }
    }

    /// Supplies the schema, replacing an earlier one.
    pub fn schema(self, schema: PropertySchema) -> (builder: ModelBuilder)
        ensures
            builder.name_view() == self.name_view(),
            builder.names() == Some(schema@),
            builder.properties() == self.properties(),
            builder.ops() == self.ops(),
            builder.count() == self.count(),
            builder.individuals() == self.individuals(),
    {
        ModelBuilder {
            name: self.name,
            parts: self.parts.schema(schema),
            count: self.count,
            individuals: self.individuals,
        }
    }

    /// Supplies the initial values of the template, keyed by property name,
    /// replacing earlier ones.
    pub fn initial_values(self, properties: FxHashMap<String, i64>) -> (builder: ModelBuilder)
        ensures
            builder.name_view() == self.name_view(),
            builder.names() == self.names(),
            builder.properties() == Some(entries(properties)),
            builder.ops() == self.ops(),
            builder.count() == self.count(),
            builder.individuals() == self.individuals(),
    {
        ModelBuilder {
            name: self.name,
            parts: self.parts.initial_values(properties),
            count: self.count,
            individuals: self.individuals,
        }
    }

    /// Appends one operation to the operations supplied so far.
    pub fn add_operation(self, op: Operation) -> (builder: ModelBuilder)
        ensures
            builder.name_view() == self.name_view(),
            builder.names() == self.names(),
            builder.properties() == self.properties(),
            builder.ops() == self.ops().push(op@),
            builder.count() == self.count(),
            builder.individuals() == self.individuals(),
    {
        ModelBuilder {
            name: self.name,
            parts: self.parts.add_operation(op),
            count: self.count,
            individuals: self.individuals,
        }
    }

    /// Sets the number of agents that start from the template.
    pub fn agents(self, count: usize) -> (builder: ModelBuilder)
        ensures
            builder.name_view() == self.name_view(),
            builder.names() == self.names(),
            builder.properties() == self.properties(),
            builder.ops() == self.ops(),
            builder.count() == count,
            builder.individuals() == self.individuals(),
    {
        ModelBuilder { name: self.name, parts: self.parts, count, individuals: self.individuals }
    }

    /// Adds one agent that starts from initial values of its own, keyed by
    /// property name. It follows the agents that start from the template.
    pub fn add_agent(self, properties: FxHashMap<String, i64>) -> (builder: ModelBuilder)
        ensures
            builder.name_view() == self.name_view(),
            builder.names() == self.names(),
            builder.properties() == self.properties(),
            builder.ops() == self.ops(),
            builder.count() == self.count(),
            builder.individuals() == self.individuals().push(entries(properties)),
    {
        let mut individuals = self.individuals;
        individuals.push(properties);
        assert(property_views(individuals@) == property_views(self.individuals@).push(
            entries(properties),
        ));
        ModelBuilder { name: self.name, parts: self.parts, count: self.count, individuals }
    }

    /// Builds the factory and, from it, every agent of the model. Fails as
    /// [`model_build_failure`] says; a model is built whole or not at all.
    pub fn build(self) -> (r: Result<Model, BuildError>)
        ensures
            is_build_of(r, self),
    {
        let ModelBuilder { name, parts, count, individuals } = self;
        let factory = match parts.build() {
            Ok(factory) => factory,
            Err(e) => {
                return Err(e);
            },
        };
        let ghost names = factory.names();
        let ghost template = factory.template();
        let ghost given = property_views(individuals@);
        let mut agents: Vec<Agent> = Vec::new();
        let mut j: usize = 0;
        while j < count
            invariant
                j <= count,
                agents@.len() == j,
                template == factory.template(),
                Model::homogeneous(factory, agents@),
                forall|i: int| 0 <= i < j ==> (#[trigger] agents@[i]).values() == template,
            decreases count - j,
        {
            agents.push(factory.create_agent());
            j += 1;
        }
        let extra = individuals.len();
        let mut k: usize = 0;
        while k < extra
            invariant
                extra == individuals@.len(),
                k <= extra,
                agents@.len() == count + k,
                names == factory.names(),
                template == factory.template(),
                given == property_views(individuals@),
                given == self.individuals(),
                self.names() == Some(names),
                build_failure(self.names(), self.properties()).is_none(),
                Model::homogeneous(factory, agents@),
                forall|i: int| 0 <= i < count ==> (#[trigger] agents@[i]).values() == template,
                forall|i: int| 0 <= i < k ==> covers(#[trigger] given[i], names),
                forall|i: int| 0 <= i < k ==> (#[trigger] agents@[count + i]).values() == dense(given[i], names),
            decreases extra - k,
        {
            match factory.create_agent_from(&individuals[k]) {
                Ok(agent) => {
                    agents.push(agent);
                },
                Err(e) => {
                    assert(!covers(given[k as int], names));
                    return Err(e);
                },
            }
            k += 1;
        }
        proof {
            let population = initial_population(
                names,
                self.properties().unwrap(),
                count as nat,
                given,
            );
            assert(value_arrays(agents@).len() == population.len());
            assert forall|i: int| 0 <= i < population.len() implies value_arrays(agents@)[i]
                == population[i] by {
                if i >= count {
                    assert(agents@[count + (i - count)].values() == dense(given[i - count], names));
                }
            }
            assert(value_arrays(agents@) == population);
        }
        Ok(Model { name, factory, agents })
    }
}


/// Whether `r` is the outcome of building `builder`: a model with the
/// builder's name, schema and operations whose population starts where
/// [`initial_population`] says, or the error of [`model_build_failure`].
pub open spec fn is_build_of(r: Result<Model, BuildError>, builder: ModelBuilder) -> bool {
    match r {
        Ok(model) => {
            &&& model_build_failure(builder.names(), builder.properties(), builder.individuals()).is_none()
            &&& model.name_view() == builder.name_view()
            &&& model.names() == builder.names().unwrap()
            &&& model.ops() == builder.ops()
            &&& model.population() == initial_population(
                builder.names().unwrap(),
                builder.properties().unwrap(),
                builder.count(),
                builder.individuals(),
            )
        },
        Err(e) => model_build_failure(builder.names(), builder.properties(), builder.individuals())
            == Some(e),
    }
}

/// Whether two builders hold the same schema, initial values, operations
/// and agents. The name of the model is left out.
pub open spec fn same_parts(first: ModelBuilder, second: ModelBuilder) -> bool {
    &&& first.names() == second.names()
    &&& first.properties() == second.properties()
    &&& first.ops() == second.ops()
    &&& first.count() == second.count()
    &&& first.individuals() == second.individuals()
}

/// Determinism: two models built independently from the same schema, initial
/// values and operations, and run for the same number of steps, record the
/// same log or fail with the same error.
pub proof fn lemma_independent_runs_agree(
    first: ModelBuilder,
    second: ModelBuilder,
    first_model: Model,
    second_model: Model,
    steps: nat,
    first_outcome: Result<DataDict, StepError>,
    second_outcome: Result<DataDict, StepError>,
)
    requires
        same_parts(first, second),
        is_build_of(Ok(first_model), first),
        is_build_of(Ok(second_model), second),
        is_run_of(
            first_outcome,
            first_model.names(),
            first_model.ops(),
            first_model.population(),
            steps,
        ),
        is_run_of(
            second_outcome,
            second_model.names(),
            second_model.ops(),
            second_model.population(),
            steps,
        ),
    ensures
        same_outcome(first_outcome, second_outcome),
{
}

/// Two builds from the same parts both succeed or fail with the same error.
pub proof fn lemma_builds_agree(
    first: ModelBuilder,
    second: ModelBuilder,
    first_outcome: Result<Model, BuildError>,
    second_outcome: Result<Model, BuildError>,
)
    requires
        same_parts(first, second),
        is_build_of(first_outcome, first),
        is_build_of(second_outcome, second),
    ensures
        match (first_outcome, second_outcome) {
            (Ok(a), Ok(b)) => a.names() == b.names() && a.ops() == b.ops() && a.population()
                == b.population(),
            (Err(a), Err(b)) => a == b,
            _ => false,
        },
{
}

} // verus!
