pub mod graph;
pub mod executor;
