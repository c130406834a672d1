//! Logical-plan rewriting and vectorised expression evaluation for a SQL engine.
//!
//! The crate has two halves that share one data model. The expression half
//! builds typed expression trees from plan descriptors and evaluates them,
//! column at a time, over batches. The optimizer half rewrites trees of
//! logical operators with rules applied bottom-up until nothing changes.

pub mod array;
pub mod descriptor;
pub mod error;
pub mod expr;
pub mod optimizer;
pub mod types;
pub mod utils;
