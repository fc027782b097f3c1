use agentrs_core::datadict::DataDict;
use rustc_hash::FxHashMap;

fn row(list: &[(&str, i64)]) -> FxHashMap<String, i64> {
    let mut map = FxHashMap::default();
    for (name, value) in list {
        map.insert(name.to_string(), *value);
    }
    map
}

#[test]
fn new_data_dict_is_empty() {
    let data = DataDict::new();
    assert!(data.agent_props.is_empty());
    assert!(data.step_indices.is_empty());
}

#[test]
fn record_appends_one_row_group() {
    let mut data = DataDict::new();
    data.record(0, vec![row(&[("energy", 1)]), row(&[("energy", 2)])]);
    data.record(1, vec![row(&[("energy", 3)]), row(&[("energy", 4)])]);
    assert_eq!(data.step_indices, vec![0, 1]);
    assert_eq!(data.agent_props.len(), 2);
    assert_eq!(data.agent_props[0][1].get("energy"), Some(&2));
    assert_eq!(data.agent_props[1][0].get("energy"), Some(&3));
}

#[test]
fn record_does_not_reorder_or_deduplicate() {
    let mut data = DataDict::new();
    data.record(7, vec![row(&[("energy", 1)])]);
    data.record(3, vec![row(&[("energy", 2)])]);
    data.record(7, vec![row(&[("energy", 3)])]);
    data.record(3, Vec::new());
    assert_eq!(data.step_indices, vec![7, 3, 7, 3]);
    assert_eq!(data.agent_props[0][0].get("energy"), Some(&1));
    assert_eq!(data.agent_props[1][0].get("energy"), Some(&2));
    assert_eq!(data.agent_props[2][0].get("energy"), Some(&3));
    assert!(data.agent_props[3].is_empty());
}
