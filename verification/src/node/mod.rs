//! The configuration of a node and the node once it runs.

pub mod builder;
pub mod running;

pub use builder::{NodeBuilder, RestApiVariant, RunnableNode, RunnableNodeRestApiVariant};
pub use running::{Node, ShutdownLog};
