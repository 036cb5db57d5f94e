pub mod entities;
pub mod types;
pub mod safety;
pub mod callable;
pub mod items;
pub mod naming;
pub mod module;
pub mod tree;
pub mod resolve;
pub mod classify;
pub mod callgraph;
pub mod link;
pub mod analysis;
