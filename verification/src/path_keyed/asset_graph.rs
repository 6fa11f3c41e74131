//! The graph of path-identified assets: the root asset holds the entries as
//! its dependencies, every other asset is reached from one that imports it,
//! and an index from paths to nodes keeps an asset from being loaded twice.
use vstd::prelude::*;
use crate::path_keyed::asset::Asset;
use crate::path_keyed::dependency::Dependency;
use crate::path_keyed::path_index::PathIndex;
use crate::path_keyed::graph_store::{
    PathStore, path_store_nodes, path_store_edges, path_store_new, path_store_node_count,
    path_store_add_node, path_store_add_edge, path_store_node,
};

verus! {

/// The content of the root asset, which stands for the whole build.
pub open spec fn root_content() -> Seq<u8> {
    seq![95u8, 95u8, 82u8, 79u8, 79u8, 84u8, 95u8, 95u8]
}

/// The index after the paths of `assets` have been recorded in turn, the
/// `k`-th of them at node `base + k`.
pub open spec fn indexed_paths(m: Map<Seq<u8>, usize>, assets: Seq<Asset>, base: int) -> Map<Seq<u8>, usize>
    decreases assets.len(),
{
    if assets.len() == 0 {
        m
    } else {
        indexed_paths(m, assets.drop_last(), base).insert(
            assets.last().path@,
            (base + assets.len() - 1) as usize,
        )
    }
}

/// Recording assets leaves the entry of a path that none of them carries as
/// it was.
pub proof fn indexed_paths_keeps_others(m: Map<Seq<u8>, usize>, assets: Seq<Asset>, base: int, p: Seq<u8>)
    requires
        forall|k: int| 0 <= k < assets.len() ==> (#[trigger] assets[k]).path@ != p,
    ensures
        indexed_paths(m, assets, base).dom().contains(p) == m.dom().contains(p),
        m.dom().contains(p) ==> indexed_paths(m, assets, base)[p] == m[p],
    decreases assets.len(),
{
    if assets.len() > 0 {
        let init = assets.drop_last();
        assert forall|k: int| 0 <= k < init.len() implies (#[trigger] init[k]).path@ != p by {
            assert(init[k] == assets[k]);
        }
        indexed_paths_keeps_others(m, init, base, p);
        assert(assets[assets.len() - 1].path@ != p);
    }
}

/// The graph of path-identified assets.
pub struct AssetGraph {
    graph: PathStore,
    root_idx: usize,
    idx_by_path: PathIndex,
}

impl AssetGraph {
    /// The assets, by node index.
    pub closed spec fn nodes(&self) -> Seq<Asset> {
        path_store_nodes(self.graph)
    }

    /// The dependency edges, by edge index: importer, imported asset, dependency.
    pub closed spec fn edges(&self) -> Seq<(usize, usize, Dependency)> {
        path_store_edges(self.graph)
    }

    /// The index from paths to node indices.
    pub closed spec fn index(&self) -> Map<Seq<u8>, usize> {
        self.idx_by_path@
    }

    /// The node index of the root asset.
    pub closed spec fn root(&self) -> usize {
        self.root_idx
    }

    /// Edge `k` enters node `k + 1` from an earlier node.
    pub open spec fn edges_form_tree(&self) -> bool {
        &&& self.edges().len() + 1 == self.nodes().len()
        &&& forall|k: int|
            0 <= k < self.edges().len() ==> {
                &&& (#[trigger] self.edges()[k]).1 == k + 1
                &&& self.edges()[k].0 <= k
                &&& !self.edges()[k].2.is_async
            }
    }

    /// The index maps each path it holds to a node with that path, and holds
    /// the path of every asset but the root (which is not indexed).
    pub open spec fn index_is_exact(&self) -> bool {
        &&& forall|p: Seq<u8>|
            #[trigger] self.index().dom().contains(p) ==> {
                &&& 0 < self.index()[p] < self.nodes().len()
                &&& self.nodes()[self.index()[p] as int].path@ == p
            }
        &&& forall|i: int|
            0 < i < self.nodes().len() ==> self.index().dom().contains(
                #[trigger] self.nodes()[i].path@,
            )
    }

    /// The invariant that every operation of the graph keeps.
    pub open spec fn wf(&self) -> bool {
        &&& self.root() == 0
        &&& 1 <= self.nodes().len() < u32::MAX
        &&& self.edges_form_tree()
        &&& self.index_is_exact()
    }

    /// A graph with only the root asset: its path is `root`, its content the
    /// marker `__ROOT__`, and its dependencies the `entries`. The index is empty.
    pub fn new(root: Vec<u8>, entries: Vec<String>) -> (g: AssetGraph)
        ensures
            g.wf(),
            g.nodes().len() == 1,
            g.nodes()[0].path == root,
            g.nodes()[0].content@ == root_content(),
            g.nodes()[0].dependency_specifiers == entries,
            g.edges() == Seq::<(usize, usize, Dependency)>::empty(),
            g.index() == Map::<Seq<u8>, usize>::empty(),
    {
        let mut content: Vec<u8> = Vec::new();
        content.push(95u8);
        content.push(95u8);
        content.push(82u8);
        content.push(79u8);
        content.push(79u8);
        content.push(84u8);
        content.push(95u8);
        content.push(95u8);
        let root_asset = Asset { path: root, content, dependency_specifiers: entries };
        let mut graph = path_store_new();
        let root_idx = path_store_add_node(&mut graph, root_asset);
        let g = AssetGraph { graph, root_idx, idx_by_path: PathIndex::new() };
        assert(g.nodes() =~= seq![root_asset]);
        assert(g.nodes()[0].content@ =~= root_content());
        assert(g.index() =~= Map::<Seq<u8>, usize>::empty());
        g
    }

    /// The number of assets in the graph.
    pub fn node_count(&self) -> (n: usize)
        ensures
            n == self.nodes().len(),
    {
        path_store_node_count(&self.graph)
    }

    /// The asset at node `ix`, which must be a node of the graph.
    pub fn node(&self, ix: usize) -> (asset: &Asset)
        requires
            ix < self.nodes().len(),
        ensures
            *asset == self.nodes()[ix as int],
    {
        path_store_node(&self.graph, ix)
    }

    /// Whether an asset read from `path` is in the index already.
    pub fn contains(&self, path: &[u8]) -> (b: bool)
        ensures
            b == self.index().dom().contains(path@),
    {
        self.idx_by_path.contains_key(path)
    }

    /// Adds `to_node` as a new node, records its path, and adds a synchronous
    /// dependency edge from `from_idx` to it; returns the new node's index.
    pub fn add_asset(&mut self, from_idx: usize, to_node: Asset) -> (idx: usize)
        requires
            old(self).wf(),
            from_idx < old(self).nodes().len(),
            old(self).nodes().len() + 1 < u32::MAX,
        ensures
            final(self).wf(),
            idx == old(self).nodes().len(),
            final(self).nodes() == old(self).nodes().push(to_node),
            final(self).edges() == old(self).edges().push((from_idx, idx, Dependency { is_async: false })),
            final(self).index() == old(self).index().insert(to_node.path@, idx),
    {
        let ghost old_g = *self;
        let path = to_node.path.clone();
        let idx = path_store_add_node(&mut self.graph, to_node);
        self.idx_by_path.insert(path, idx);
        path_store_add_edge(&mut self.graph, from_idx, idx, Dependency { is_async: false });
        assert forall|i: int| 0 < i < self.nodes().len() implies self.index().dom().contains(
            #[trigger] self.nodes()[i].path@,
        ) by {
            if i < old_g.nodes().len() {
                assert(old_g.index().dom().contains(old_g.nodes()[i].path@));
            }
        }
        assert forall|p: Seq<u8>| #[trigger] self.index().dom().contains(p) implies {
            &&& 0 < self.index()[p] < self.nodes().len()
            &&& self.nodes()[self.index()[p] as int].path@ == p
        } by {
            if p != to_node.path@ {
                assert(old_g.index().dom().contains(p));
            }
        }
        assert forall|k: int| 0 <= k < self.edges().len() implies {
            &&& (#[trigger] self.edges()[k]).1 == k + 1
            &&& self.edges()[k].0 <= k
            &&& !self.edges()[k].2.is_async
        } by {
            if k < old_g.edges().len() {
                assert(old_g.edges()[k] == self.edges()[k]);
            }
        }
        idx
    }

    /// Transforming an asset gives it back unchanged.
    pub fn transform(&self, asset: Asset) -> (out: Asset)
        ensures
            out == asset,
    {
        asset
    }

    /// The build plan that starts a build: the root's frame.
    pub fn build_plan(&self) -> (plan: PathBuildPlan)
        requires
            self.wf(),
        ensures
            plan.pending() == seq![self.root()],
            plan.fits(self.nodes().len()),
    {
        let mut frames: Vec<usize> = Vec::new();
        frames.push(self.root_idx);
        let plan = PathBuildPlan { frames };
        assert(plan.pending() =~= seq![self.root()]);
        plan
    }

    /// Adds the assets that a build found for node `parent`, in order, each
    /// reached from `parent`; then puts a frame for each on `plan`, so that the
    /// first is built next and all of its assets come before the second's.
    pub fn attach_children(&mut self, plan: &mut PathBuildPlan, parent: usize, children: Vec<Asset>)
        requires
            old(self).wf(),
            parent < old(self).nodes().len(),
            old(self).nodes().len() + children@.len() < u32::MAX,
            old(plan).fits(old(self).nodes().len()),
            forall|k: int|
                0 <= k < children@.len() ==> !old(self).index().dom().contains(
                    (#[trigger] children@[k]).path@,
                ),
        ensures
            final(self).wf(),
            forall|p: Seq<u8>|
                old(self).index().dom().contains(p) ==> #[trigger] final(self).index().dom().contains(p)
                    && final(self).index()[p] == old(self).index()[p],
            final(self).nodes() == old(self).nodes() + children@,
            final(self).edges() == old(self).edges() + Seq::new(
                children@.len(),
                |k: int| (parent, (old(self).nodes().len() + k) as usize, Dependency { is_async: false }),
            ),
            final(self).index() == indexed_paths(old(self).index(), children@, old(self).nodes().len() as int),
            final(plan).pending() == old(plan).pending() + Seq::new(
                children@.len(),
                |k: int| (old(self).nodes().len() + children@.len() - 1 - k) as usize,
            ),
            final(plan).fits(final(self).nodes().len()),
    {
        let ghost old_g = *self;
        let ghost base = old_g.nodes().len() as int;
        let n = children.len();
        let mut rest = children;
        let mut frames: Vec<usize> = Vec::new();
        let mut i: usize = 0;
        while i < n
            invariant
                i <= n,
                n == children@.len(),
                rest@ == children@.subrange(i as int, n as int),
                self.wf(),
                parent < old_g.nodes().len(),
                base == old_g.nodes().len(),
                base + n < u32::MAX,
                self.nodes() == old_g.nodes() + children@.take(i as int),
                self.edges() == old_g.edges() + Seq::new(
                    i as nat,
                    |k: int| (parent, (base + k) as usize, Dependency { is_async: false }),
                ),
                self.index() == indexed_paths(old_g.index(), children@.take(i as int), base),
                frames@ == Seq::new(i as nat, |k: int| (base + k) as usize),
            decreases n - i,
        {
            let asset = rest.remove(0);
            let ix = self.add_asset(parent, asset);
            frames.push(ix);
            i = i + 1;
            assert(children@.take(i as int).drop_last() =~= children@.take(i - 1));
            assert(self.nodes() =~= old_g.nodes() + children@.take(i as int));
            assert(self.edges() =~= old_g.edges() + Seq::new(
                i as nat,
                |k: int| (parent, (base + k) as usize, Dependency { is_async: false }),
            ));
            assert(frames@ =~= Seq::new(i as nat, |k: int| (base + k) as usize));
        }
        assert(children@.take(n as int) =~= children@);
        assert forall|p: Seq<u8>| old_g.index().dom().contains(p) implies #[trigger] self.index().dom().contains(p)
            && self.index()[p] == old_g.index()[p] by {
            indexed_paths_keeps_others(old_g.index(), children@, base, p);
        }
        let ghost old_pending = plan.pending();
        let ghost added = Seq::new(n as nat, |k: int| (base + n - 1 - k) as usize);
        let mut j: usize = 0;
        while j < n
            invariant
                j <= n,
                n == children@.len(),
                base + n < u32::MAX,
                added == Seq::new(n as nat, |k: int| (base + n - 1 - k) as usize),
                frames@ == Seq::new((n - j) as nat, |k: int| (base + k) as usize),
                plan.pending() == old_pending + added.take(j as int),
            decreases n - j,
        {
            let f = frames.pop().unwrap();
            plan.frames.push(f);
            j = j + 1;
            assert(frames@ =~= Seq::new((n - j) as nat, |k: int| (base + k) as usize));
            assert(plan.pending() =~= old_pending + added.take(j as int));
        }
        assert(added.take(n as int) =~= added);
        assert forall|k: int| 0 <= k < plan.pending().len() implies (#[trigger] plan.pending()[k])
            < self.nodes().len() by {
            if k >= old_pending.len() {
                assert(plan.pending()[k] == added[k - old_pending.len()]);
            }
        }
    }
}

/// The nodes whose dependencies a build has yet to work on; the last is
/// taken first.
pub struct PathBuildPlan {
    frames: Vec<usize>,
}

impl PathBuildPlan {
    /// The pending nodes; the last is the next to be taken.
    pub closed spec fn pending(&self) -> Seq<usize> {
        self.frames@
    }

    /// Every pending node is a node of a graph with `n` nodes.
    pub open spec fn fits(&self, n: nat) -> bool {
        forall|k: int| 0 <= k < self.pending().len() ==> (#[trigger] self.pending()[k]) < n
    }

    /// Takes the next node: the most recently added one that is pending.
    pub fn next(&mut self) -> (frame: Option<usize>)
        ensures
            old(self).pending().len() == 0 ==> frame is None && final(self).pending() == old(
                self,
            ).pending(),
            old(self).pending().len() > 0 ==> frame == Some(old(self).pending().last())
                && final(self).pending() == old(self).pending().drop_last(),
            forall|n: nat| old(self).fits(n) ==> final(self).fits(n),
    {
        self.frames.pop()
    }
}

} // verus!
