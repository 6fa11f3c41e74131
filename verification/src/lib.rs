//! An asset graph for a bundler: assets are identified by URLs, each asset
//! lists its dependencies, and the graph records which asset imported which.
//!
//! The library holds the graph and the decisions that drive its construction;
//! resolving, loading and transforming assets are left to the caller, which
//! reports their outcomes back to the functions here.
use vstd::prelude::*;

pub mod asset;
pub mod asset_graph;
pub mod chain;
pub mod dependency;
pub mod driver;
pub mod graph_store;
pub mod path_keyed;
pub mod plugin;
pub mod url_ops;

verus! {

} // verus!
