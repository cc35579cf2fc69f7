//! Aggregation of resources that live on several remote sources behind one
//! logical collection: the source registry, the composite identifier codec
//! and the decisions of the multi-source dispatcher.

pub mod contexts;
pub mod errors;
pub mod typeutil;
pub mod repositories;
