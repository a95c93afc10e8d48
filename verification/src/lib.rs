//! Behavior-tree runtime with a content-selection pipeline.
//!
//! The crate holds three subsystems: a typed value model ([`values`]),
//! a selection-tree evaluator that walks a graph of nodes and edges to pick
//! content commands ([`tree`]), and a behavior-tree engine with a builder,
//! a tick protocol and a reactive service that tracks abort handles for
//! in-flight node work ([`bt`], [`reactive`]).

pub mod address;
pub mod bt;
pub mod conditions;
pub mod edges;
pub mod expressions;
pub mod nodes;
pub mod operators;
pub mod reactive;
pub mod tree;
pub mod values;
