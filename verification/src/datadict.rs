//! The result collector: an append-only log of the property values of every
//! agent after every step, in name-keyed form.

use crate::property_map::entries;
use rustc_hash::FxHashMap;
use vstd::prelude::*;

verus! {

/// The name-to-value pairs of each snapshot of a row group, by agent index.
pub open spec fn snapshot_views(group: Seq<FxHashMap<String, i64>>) -> Seq<Map<Seq<char>, i64>> {
    group.map_values(|snapshot: FxHashMap<String, i64>| entries(snapshot))
}

/// An append-only log with one row group per recorded step. The row group at
/// position `p` was recorded under the step index `step_indices[p]` and holds,
/// at each agent index, that agent's property values keyed by name.
pub struct DataDict {
    pub step_indices: Vec<usize>,
    pub agent_props: Vec<Vec<FxHashMap<String, i64>>>,
}

impl DataDict {
    /// The recorded row groups, oldest first: for each, the name-to-value
    /// pairs of every agent, by agent index.
    pub open spec fn rows(&self) -> Seq<Seq<Map<Seq<char>, i64>>> {
        self.agent_props@.map_values(|group: Vec<FxHashMap<String, i64>>| snapshot_views(group@))
    }

    /// An empty log.
    pub fn new() -> (data: DataDict)
        ensures
            data.step_indices@.len() == 0,
            data.agent_props@.len() == 0,
            data.rows().len() == 0,
    {
        DataDict { step_indices: Vec::new(), agent_props: Vec::new() }
    }

    /// Appends one row group, recorded under `step_index`. Nothing is
    /// reordered and nothing is dropped: earlier row groups stay as they
    /// are, also when one of them was recorded under the same step index.
    pub fn record(&mut self, step_index: usize, agent_snapshots: Vec<FxHashMap<String, i64>>)
        ensures
            final(self).step_indices@ == old(self).step_indices@.push(step_index),
            final(self).agent_props@ == old(self).agent_props@.push(agent_snapshots),
            final(self).rows() == old(self).rows().push(snapshot_views(agent_snapshots@)),
    {
        self.step_indices.push(step_index);
        self.agent_props.push(agent_snapshots);
    }
}

} // verus!
