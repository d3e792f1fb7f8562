//! Decision logic of a workflow scheduler: loop policy, scope segments,
//! phase bookkeeping, item selection and preflight checks.

pub mod text;
pub mod strmap;
pub mod config;
pub mod spill;
pub mod accumulator;
pub mod segment;
pub mod loop_policy;
pub mod task_loop;
pub mod phase;
pub mod phase_command;
pub mod scan;
pub mod sandbox;
pub mod check;
pub mod check_workflow;
pub mod selection;
pub mod dynamic_items;
pub mod graph;
pub mod item_flow;
