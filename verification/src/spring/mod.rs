pub mod types;
pub mod graph;
