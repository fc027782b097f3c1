use agentrs_core::datadict::DataDict;
use agentrs_core::error::{BuildError, StepError};
use agentrs_core::model::{Model, ModelBuilder};
use agentrs_core::operation::Operation;
use agentrs_core::schema::PropertySchema;
use rustc_hash::FxHashMap;

fn schema_of(list: &[&str]) -> PropertySchema {
    PropertySchema::intern(list.iter().map(|name| name.to_string()).collect()).unwrap()
}

fn properties(list: &[(&str, i64)]) -> FxHashMap<String, i64> {
    let mut map = FxHashMap::default();
    for (name, value) in list {
        map.insert(name.to_string(), *value);
    }
    map
}

fn energy_model(agents: usize) -> Model {
    ModelBuilder::new("energy")
        .schema(schema_of(&["energy"]))
        .initial_values(properties(&[("energy", 10)]))
        .add_operation(Operation::add_to_property("energy", 1))
        .agents(agents)
        .build()
        .unwrap()
}

#[test]
fn three_agents_gain_one_energy_per_step() {
    let data = energy_model(3).run(5).unwrap();
    assert_eq!(data.agent_props.len(), 5);
    assert_eq!(data.step_indices, vec![0, 1, 2, 3, 4]);
    for group in &data.agent_props {
        assert_eq!(group.len(), 3);
    }
    for agent in 0..3 {
        // The fifth step is recorded under index 4, the first under index 0.
        assert_eq!(data.agent_props[4][agent].get("energy"), Some(&15));
        assert_eq!(data.agent_props[0][agent].get("energy"), Some(&11));
        assert_eq!(data.agent_props[4][agent].len(), 1);
    }
    for step in 0..5 {
        assert_eq!(data.agent_props[step][1], properties(&[("energy", 11 + step as i64)]));
    }
}

#[test]
fn build_fails_when_an_initial_value_is_missing() {
    let r = ModelBuilder::new("energy")
        .schema(schema_of(&["energy"]))
        .initial_values(properties(&[]))
        .add_operation(Operation::add_to_property("energy", 1))
        .agents(3)
        .build();
    assert!(matches!(r, Err(BuildError::IncompleteProperties)));
}

#[test]
fn build_fails_without_a_schema() {
    let r = ModelBuilder::new("m").initial_values(properties(&[("energy", 1)])).agents(1).build();
    assert!(matches!(r, Err(BuildError::MissingSchema)));
}

#[test]
fn build_fails_without_initial_values() {
    let r = ModelBuilder::new("m").schema(schema_of(&["energy"])).agents(1).build();
    assert!(matches!(r, Err(BuildError::MissingInitialValues)));
    // The template is asked for even when no agent would start from it.
    let r = ModelBuilder::new("m")
        .schema(schema_of(&["energy"]))
        .add_agent(properties(&[("energy", 1)]))
        .build();
    assert!(matches!(r, Err(BuildError::MissingInitialValues)));
}

#[test]
fn build_fails_when_an_individual_agent_lacks_a_value() {
    let r = ModelBuilder::new("m")
        .schema(schema_of(&["energy", "age"]))
        .initial_values(properties(&[("energy", 1), ("age", 2)]))
        .add_agent(properties(&[("energy", 1), ("age", 2)]))
        .add_agent(properties(&[("energy", 1)]))
        .build();
    assert!(matches!(r, Err(BuildError::IncompleteProperties)));
}

#[test]
fn build_reports_the_missing_schema_first() {
    let r = ModelBuilder::new("m").agents(2).build();
    assert!(matches!(r, Err(BuildError::MissingSchema)));
}

#[test]
fn built_model_has_its_name_and_agents() {
    let model = ModelBuilder::new("wolves")
        .schema(schema_of(&["energy", "age"]))
        .initial_values(properties(&[("energy", 10), ("age", 0)]))
        .agents(2)
        .add_agent(properties(&[("energy", 50), ("age", 7)]))
        .build()
        .unwrap();
    assert_eq!(model.name(), "wolves");
    assert_eq!(model.agent_count(), 3);
    assert_eq!(model.agent(0).get_property("energy"), Some(10));
    assert_eq!(model.agent(1).get_property("age"), Some(0));
    assert_eq!(model.agent(2).get_property("energy"), Some(50));
    assert_eq!(model.agent(2).get_property("age"), Some(7));
    for j in 0..3 {
        assert_eq!(model.agent(j).len(), 2);
    }
}

#[test]
fn run_fails_for_an_operation_on_an_unknown_property() {
    let model = ModelBuilder::new("energy")
        .schema(schema_of(&["energy"]))
        .initial_values(properties(&[("energy", 10)]))
        .add_operation(Operation::add_to_property("mass", 1))
        .agents(3)
        .build()
        .unwrap();
    assert!(matches!(model.run(5), Err(StepError::UnknownProperty)));
}

#[test]
fn run_of_no_steps_records_nothing() {
    let data = energy_model(3).run(0).unwrap();
    assert!(data.agent_props.is_empty());
    assert!(data.step_indices.is_empty());
    // Not even a malformed operation is noticed when nothing is stepped.
    let model = ModelBuilder::new("energy")
        .schema(schema_of(&["energy"]))
        .initial_values(properties(&[("energy", 10)]))
        .add_operation(Operation::add_to_property("mass", 1))
        .agents(1)
        .build()
        .unwrap();
    assert!(model.run(0).is_ok());
}

#[test]
fn run_without_agents_records_empty_row_groups() {
    let data = energy_model(0).run(3).unwrap();
    assert_eq!(data.step_indices, vec![0, 1, 2]);
    assert_eq!(data.agent_props.len(), 3);
    assert!(data.agent_props.iter().all(|group| group.is_empty()));
}

#[test]
fn run_fails_at_the_step_that_overflows() {
    let build = |start: i64| {
        ModelBuilder::new("m")
            .schema(schema_of(&["energy"]))
            .initial_values(properties(&[("energy", start)]))
            .add_operation(Operation::add_to_property("energy", 1))
            .agents(2)
            .build()
            .unwrap()
    };
    // Three steps fit, the fourth does not.
    let data = build(i64::MAX - 3).run(3).unwrap();
    assert_eq!(data.agent_props[2][0].get("energy"), Some(&i64::MAX));
    assert!(matches!(build(i64::MAX - 3).run(4), Err(StepError::Overflow)));
    assert!(matches!(build(i64::MAX - 3).run(1000), Err(StepError::Overflow)));
}

#[test]
fn run_reports_the_error_of_the_first_agent_that_fails() {
    // One step: the first agent overflows on the first operation, the second
    // agent would only fail on the second operation, which names no property.
    let model = ModelBuilder::new("m")
        .schema(schema_of(&["energy"]))
        .initial_values(properties(&[("energy", i64::MAX)]))
        .add_operation(Operation::add_to_property("energy", 1))
        .add_operation(Operation::add_to_property("mass", 1))
        .agents(1)
        .add_agent(properties(&[("energy", 0)]))
        .build()
        .unwrap();
    assert!(matches!(model.run(1), Err(StepError::Overflow)));
    // With the agents the other way round the unknown property is met first.
    let model = ModelBuilder::new("m")
        .schema(schema_of(&["energy"]))
        .initial_values(properties(&[("energy", 0)]))
        .add_operation(Operation::add_to_property("energy", 1))
        .add_operation(Operation::add_to_property("mass", 1))
        .agents(1)
        .add_agent(properties(&[("energy", i64::MAX)]))
        .build()
        .unwrap();
    assert!(matches!(model.run(1), Err(StepError::UnknownProperty)));
}

#[test]
fn step_advances_every_agent_once() {
    let mut model = energy_model(2);
    assert_eq!(model.step(), Ok(()));
    assert_eq!(model.step(), Ok(()));
    assert_eq!(model.agent(0).get_property("energy"), Some(12));
    assert_eq!(model.agent(1).get_property("energy"), Some(12));
    assert_eq!(model.snapshot(), vec![properties(&[("energy", 12)]); 2]);
}

#[test]
fn failed_step_leaves_the_population_as_it_was() {
    let mut model = ModelBuilder::new("m")
        .schema(schema_of(&["energy"]))
        .initial_values(properties(&[("energy", 0)]))
        .add_operation(Operation::add_to_property("energy", 1))
        .agents(2)
        .add_agent(properties(&[("energy", i64::MAX)]))
        .build()
        .unwrap();
    assert_eq!(model.step(), Err(StepError::Overflow));
    assert_eq!(model.agent(0).get_property("energy"), Some(0));
    assert_eq!(model.agent(1).get_property("energy"), Some(0));
    assert_eq!(model.agent(2).get_property("energy"), Some(i64::MAX));
}

#[test]
fn independently_built_models_record_the_same() {
    let build = || {
        ModelBuilder::new("m")
            .schema(schema_of(&["energy", "age", "mass"]))
            .initial_values(properties(&[("energy", 10), ("age", 0), ("mass", -4)]))
            .add_operation(Operation::add_to_property("energy", -3))
            .add_operation(Operation::add_to_property("age", 1))
            .add_operation(Operation::add_to_property("energy", 1))
            .agents(4)
            .add_agent(properties(&[("energy", 7), ("age", 70), ("mass", 700)]))
            .build()
            .unwrap()
    };
    let first: DataDict = build().run(25).unwrap();
    let second: DataDict = build().run(25).unwrap();
    assert_eq!(first.step_indices, second.step_indices);
    assert_eq!(first.agent_props, second.agent_props);
    assert_eq!(first.agent_props[24][0], properties(&[("energy", -40), ("age", 25), ("mass", -4)]));
    assert_eq!(first.agent_props[24][4], properties(&[("energy", -43), ("age", 95), ("mass", 700)]));
}

#[test]
fn agents_with_different_values_do_not_interact() {
    let starts: [i64; 4] = [10, -5, 1_000_000, 0];
    let build = |own: &[i64]| {
        let mut builder = ModelBuilder::new("m")
            .schema(schema_of(&["energy", "age"]))
            .initial_values(properties(&[("energy", 0), ("age", 0)]))
            .add_operation(Operation::add_to_property("energy", 3))
            .add_operation(Operation::add_to_property("age", 1));
        for start in own {
            builder = builder.add_agent(properties(&[("energy", *start), ("age", *start / 2)]));
        }
        builder.build().unwrap()
    };
    let together = build(&starts).run(6).unwrap();
    for (j, start) in starts.iter().enumerate() {
        let alone = build(&[*start]).run(6).unwrap();
        for step in 0..6 {
            assert_eq!(together.agent_props[step][j], alone.agent_props[step][0]);
        }
        let after = 3 * 6 + *start;
        assert_eq!(together.agent_props[5][j].get("energy"), Some(&after));
        assert_eq!(together.agent_props[5][j].get("age"), Some(&(*start / 2 + 6)));
    }
}

#[test]
fn snapshot_rows_hold_every_property() {
    let model = ModelBuilder::new("m")
        .schema(schema_of(&["energy", "age"]))
        .initial_values(properties(&[("energy", 10), ("age", 3), ("unused", 1)]))
        .add_operation(Operation::add_to_property("age", 1))
        .agents(1)
        .build()
        .unwrap();
    let data = model.run(2).unwrap();
    assert_eq!(data.agent_props[0][0], properties(&[("energy", 10), ("age", 4)]));
    assert_eq!(data.agent_props[1][0], properties(&[("energy", 10), ("age", 5)]));
}
