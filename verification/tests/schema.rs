use agentrs_core::error::SchemaError;
use agentrs_core::operation::{Operation, OperationList};
use agentrs_core::schema::PropertySchema;

fn names(list: &[&str]) -> Vec<String> {
    list.iter().map(|name| name.to_string()).collect()
}

#[test]
fn intern_keeps_the_given_order() {
    let schema = PropertySchema::intern(names(&["energy", "age", "mass"])).unwrap();
    assert_eq!(schema.size(), 3);
    assert_eq!(schema.name(0), "energy");
    assert_eq!(schema.name(1), "age");
    assert_eq!(schema.name(2), "mass");
}

#[test]
fn intern_rejects_a_repeated_name() {
    let r = PropertySchema::intern(names(&["energy", "age", "energy"]));
    assert!(matches!(r, Err(SchemaError::DuplicateProperty)));
}

#[test]
fn intern_rejects_adjacent_repeats() {
    let r = PropertySchema::intern(names(&["a", "a"]));
    assert!(matches!(r, Err(SchemaError::DuplicateProperty)));
}

#[test]
fn intern_accepts_no_names() {
    let schema = PropertySchema::intern(Vec::new()).unwrap();
    assert_eq!(schema.size(), 0);
    assert_eq!(schema.index_of("energy"), Err(SchemaError::UnknownProperty));
}

#[test]
fn intern_tells_names_apart_by_case_and_length() {
    let schema = PropertySchema::intern(names(&["energy", "Energy", "energ", ""])).unwrap();
    assert_eq!(schema.index_of("Energy"), Ok(1));
    assert_eq!(schema.index_of("energ"), Ok(2));
    assert_eq!(schema.index_of(""), Ok(3));
}

#[test]
fn index_of_resolves_every_interned_name_to_its_position() {
    let given = names(&["energy", "age", "mass", "speed"]);
    let schema = PropertySchema::intern(given.clone()).unwrap();
    for (i, name) in given.iter().enumerate() {
        assert_eq!(schema.index_of(name), Ok(i));
        assert_eq!(schema.index_of_name(name), Ok(i));
    }
}

#[test]
fn index_of_is_stable_over_repeated_lookups() {
    let schema = PropertySchema::intern(names(&["energy", "age"])).unwrap();
    let first = schema.index_of("age");
    for _ in 0..10 {
        assert_eq!(schema.index_of("age"), first);
    }
    assert_eq!(first, Ok(1));
}

#[test]
fn index_of_fails_for_an_unknown_name() {
    let schema = PropertySchema::intern(names(&["energy"])).unwrap();
    assert_eq!(schema.index_of("mass"), Err(SchemaError::UnknownProperty));
    assert_eq!(schema.index_of_name(&"mass".to_string()), Err(SchemaError::UnknownProperty));
}

#[test]
fn validate_accepts_operations_on_known_properties() {
    let schema = PropertySchema::intern(names(&["energy", "age"])).unwrap();
    let list = OperationList::new(vec![
        Operation::add_to_property("age", 1),
        Operation::add_to_property("energy", -2),
    ]);
    assert_eq!(list.validate(&schema), Ok(()));
}

#[test]
fn validate_rejects_an_operation_on_an_unknown_property() {
    let schema = PropertySchema::intern(names(&["energy"])).unwrap();
    let list = OperationList::new(vec![
        Operation::add_to_property("energy", 1),
        Operation::add_to_property("mass", 1),
    ]);
    assert_eq!(list.validate(&schema), Err(SchemaError::UnknownProperty));
}

#[test]
fn validate_accepts_an_empty_list() {
    let schema = PropertySchema::intern(Vec::new()).unwrap();
    let list = OperationList::new(Vec::new());
    assert_eq!(list.len(), 0);
    assert_eq!(list.validate(&schema), Ok(()));
}

#[test]
fn operation_list_keeps_the_given_order() {
    let list = OperationList::new(vec![
        Operation::add_to_property("a", 1),
        Operation::add_to_property("b", 2),
    ]);
    assert_eq!(list.len(), 2);
    assert_eq!(list.get(0).target(), "a");
    assert_eq!(list.get(1).target(), "b");
    assert!(matches!(list.get(1), Operation::AddToProperty { delta: 2, .. }));
}
