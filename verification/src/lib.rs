//! Skill graphs for bots: the graph document, the walk that turns it into a
//! linear execution order, and the decisions of the step dispatcher.

pub mod graph;
pub mod document;
pub mod walker;
pub mod laws;
pub mod paths;
pub mod projects;
pub mod store;
pub mod dispatcher;
