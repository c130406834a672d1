//! The logical optimizer: plan trees, rewrite rules and the driver that
//! applies rules until a plan stops changing.

pub mod heuristic;
pub mod plan_node;
pub mod rule;
