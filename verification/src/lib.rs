//! Deterministic dungeon-generation library: bounded cellular-automata
//! workloads, intent graphs and the artifact contracts that the command-line
//! adapter reads and writes.

pub mod text;
pub mod cellular_automata;
pub mod model;
pub mod graph;
pub mod graph_rules;
pub mod candidate;
pub mod geometry_policy;
pub mod procgen_core;
pub mod json;
pub mod graph_reports;
pub mod intermediate;
pub mod intermediate_validation;
pub mod text_set;
pub mod spatial;
pub mod breakdown;
pub mod catalog;
pub mod rule_metadata;
pub mod batch;
pub mod sorting;
pub mod connection_plan;
pub mod geometry;
pub mod geometry_validation;
pub mod catalog_outcome;
pub mod catalog_selection;
pub mod catalog_trace;
pub mod catalog_route;
pub mod catalog_geometry;
pub mod preview;
pub mod topology;
pub mod flow;
pub mod catalog_replay;
