//! Simulation core of an agent-based modelling engine.
//!
//! A population of homogeneous agents, each carrying a fixed set of named
//! integer properties stored in a dense array, is advanced through discrete
//! steps by folding a shared, ordered list of operations over every agent.
//! The trajectory of every property is captured in a [`datadict::DataDict`].

pub mod agent;
pub mod datadict;
pub mod error;
pub mod factory;
pub mod layout;
pub mod model;
pub mod operation;
pub mod property_map;
pub mod schema;
pub mod shared;
