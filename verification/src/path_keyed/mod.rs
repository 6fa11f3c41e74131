//! A graph of assets identified by file paths, each listing the specifiers it
//! depends on, with the entries of a build kept under a root asset; and the
//! module graph.
pub mod asset;
pub mod asset_graph;
pub mod dependency;
pub mod graph;
pub mod graph_store;
pub mod module;
pub mod path_index;
pub mod plugin;
pub mod resolver;
pub mod transformer;
