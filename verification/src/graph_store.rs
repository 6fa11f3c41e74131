//! The `petgraph` graph that holds the assets, and what this library
//! relies on of its methods.
use vstd::prelude::*;
use crate::asset::Asset;
use crate::dependency::Dependency;

verus! {

#[verifier::external_type_specification]
#[verifier::external_body]
#[verifier::reject_recursive_types(N)]
#[verifier::reject_recursive_types(E)]
#[verifier::reject_recursive_types(Ty)]
#[verifier::reject_recursive_types(Ix)]
pub struct ExGraph<N, E, Ty, Ix>(petgraph::Graph<N, E, Ty, Ix>);

#[verifier::external_type_specification]
#[verifier::external_body]
pub struct ExDirected(petgraph::Directed);

/// The graph in which the asset graph keeps its assets and dependencies.
pub type AssetStore = petgraph::Graph<Asset, Dependency>;

/// The node weights of an asset store, by node index.
pub uninterp spec fn store_nodes(g: petgraph::Graph<Asset, Dependency>) -> Seq<Asset>;

/// The edges of an asset store, by edge index: source, target and weight.
pub uninterp spec fn store_edges(g: petgraph::Graph<Asset, Dependency>) -> Seq<(usize, usize, Dependency)>;

/// Calls `petgraph::Graph::new`. Claimed: the graph has no nodes and no edges.
#[verifier::external_body]
pub(crate) fn store_new() -> (g: AssetStore)
    ensures
        store_nodes(g) == Seq::<Asset>::empty(),
        store_edges(g) == Seq::<(usize, usize, Dependency)>::empty(),
{
    petgraph::Graph::new()
}

/// Calls `petgraph::Graph::node_count`. Claimed: the number of nodes.
#[verifier::external_body]
pub(crate) fn store_node_count(g: &AssetStore) -> (n: usize)
    ensures
        n == store_nodes(*g).len(),
{
    g.node_count()
}

/// Calls `petgraph::Graph::add_node`, which panics only when the node count
/// has reached `u32::MAX`. Claimed: the weight is appended as the last node,
/// whose index is returned, and the edges stay.
#[verifier::external_body]
pub(crate) fn store_add_node(g: &mut AssetStore, weight: Asset) -> (ix: usize)
    requires
        store_nodes(*old(g)).len() < u32::MAX,
    ensures
        ix == store_nodes(*old(g)).len(),
        store_nodes(*final(g)) == store_nodes(*old(g)).push(weight),
        store_edges(*final(g)) == store_edges(*old(g)),
{
    g.add_node(weight).index()
}

/// Calls `petgraph::Graph::add_edge`, which panics when an endpoint is not a
/// node or the edge count has reached `u32::MAX`. Claimed: the edge is
/// appended as the last edge and the nodes stay.
#[verifier::external_body]
pub(crate) fn store_add_edge(g: &mut AssetStore, a: usize, b: usize, weight: Dependency)
    requires
        a < store_nodes(*old(g)).len(),
        b < store_nodes(*old(g)).len(),
        store_edges(*old(g)).len() < u32::MAX,
    ensures
        store_nodes(*final(g)) == store_nodes(*old(g)),
        store_edges(*final(g)) == store_edges(*old(g)).push((a, b, weight)),
{
    g.add_edge(petgraph::graph::NodeIndex::new(a), petgraph::graph::NodeIndex::new(b), weight);
}

/// Indexes the graph (`Index<NodeIndex>` for `petgraph::Graph`), which panics
/// when the index is not a node. Claimed: the weight of that node.
#[verifier::external_body]
pub(crate) fn store_node(g: &AssetStore, ix: usize) -> (w: &Asset)
    requires
        ix < store_nodes(*g).len(),
    ensures
        *w == store_nodes(*g)[ix as int],
{
    &g[petgraph::graph::NodeIndex::new(ix)]
}

} // verus!
