//! The `petgraph` graphs of the path-keyed asset graph and the module graph,
//! and what this library relies on of their methods.
use vstd::prelude::*;
use crate::path_keyed::asset::Asset;
use crate::path_keyed::dependency::Dependency;
use crate::path_keyed::module::Module;

verus! {

/// The graph in which the path-keyed asset graph keeps its assets.
pub type PathStore = petgraph::Graph<Asset, Dependency>;

/// The graph of modules.
pub type ModuleStore = petgraph::Graph<Module, Dependency>;

/// The node weights of a path store, by node index.
pub uninterp spec fn path_store_nodes(g: petgraph::Graph<Asset, Dependency>) -> Seq<Asset>;

/// The edges of a path store, by edge index: source, target and weight.
pub uninterp spec fn path_store_edges(g: petgraph::Graph<Asset, Dependency>) -> Seq<(usize, usize, Dependency)>;

/// The node weights of a module store, by node index.
pub uninterp spec fn module_store_nodes(g: petgraph::Graph<Module, Dependency>) -> Seq<Module>;

/// The edges of a module store, by edge index: source, target and weight.
pub uninterp spec fn module_store_edges(g: petgraph::Graph<Module, Dependency>) -> Seq<(usize, usize, Dependency)>;

/// Calls `petgraph::Graph::new`. Claimed: the graph has no nodes and no edges.
#[verifier::external_body]
pub(crate) fn path_store_new() -> (g: PathStore)
    ensures
        path_store_nodes(g) == Seq::<Asset>::empty(),
        path_store_edges(g) == Seq::<(usize, usize, Dependency)>::empty(),
{
    petgraph::Graph::new()
}

/// Calls `petgraph::Graph::node_count`. Claimed: the number of nodes.
#[verifier::external_body]
pub(crate) fn path_store_node_count(g: &PathStore) -> (n: usize)
    ensures
        n == path_store_nodes(*g).len(),
{
    g.node_count()
}

/// Calls `petgraph::Graph::add_node`, which panics only when the node count
/// has reached `u32::MAX`. Claimed: the weight is appended as the last node,
/// whose index is returned, and the edges stay.
#[verifier::external_body]
pub(crate) fn path_store_add_node(g: &mut PathStore, weight: Asset) -> (ix: usize)
    requires
        path_store_nodes(*old(g)).len() < u32::MAX,
    ensures
        ix == path_store_nodes(*old(g)).len(),
        path_store_nodes(*final(g)) == path_store_nodes(*old(g)).push(weight),
        path_store_edges(*final(g)) == path_store_edges(*old(g)),
{
    g.add_node(weight).index()
}

/// Calls `petgraph::Graph::add_edge`, which panics when an endpoint is not a
/// node or the edge count has reached `u32::MAX`. Claimed: the edge is
/// appended as the last edge and the nodes stay.
#[verifier::external_body]
pub(crate) fn path_store_add_edge(g: &mut PathStore, a: usize, b: usize, weight: Dependency)
    requires
        a < path_store_nodes(*old(g)).len(),
        b < path_store_nodes(*old(g)).len(),
        path_store_edges(*old(g)).len() < u32::MAX,
    ensures
        path_store_nodes(*final(g)) == path_store_nodes(*old(g)),
        path_store_edges(*final(g)) == path_store_edges(*old(g)).push((a, b, weight)),
{
    g.add_edge(petgraph::graph::NodeIndex::new(a), petgraph::graph::NodeIndex::new(b), weight);
}

/// Indexes the graph (`Index<NodeIndex>` for `petgraph::Graph`), which panics
/// when the index is not a node. Claimed: the weight of that node.
#[verifier::external_body]
pub(crate) fn path_store_node(g: &PathStore, ix: usize) -> (w: &Asset)
    requires
        ix < path_store_nodes(*g).len(),
    ensures
        *w == path_store_nodes(*g)[ix as int],
{
    &g[petgraph::graph::NodeIndex::new(ix)]
}

/// Calls `petgraph::Graph::new`. Claimed: the graph has no nodes and no edges.
#[verifier::external_body]
pub(crate) fn module_store_new() -> (g: ModuleStore)
    ensures
        module_store_nodes(g) == Seq::<Module>::empty(),
        module_store_edges(g) == Seq::<(usize, usize, Dependency)>::empty(),
{
    petgraph::Graph::new()
}

} // verus!
