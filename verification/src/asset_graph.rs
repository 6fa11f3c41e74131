//! The asset graph: every asset reached from the entries, the dependency
//! through which each was first reached, and an index from identifiers to
//! nodes, so that an asset already in the graph is not loaded again.
use vstd::prelude::*;
use vstd::hash_map::StringHashMap;
use crate::asset::Asset;
use crate::dependency::Dependency;
use crate::graph_store::{
    AssetStore, store_nodes, store_edges, store_new, store_node_count, store_add_node,
    store_add_edge, store_node,
};
use crate::plugin::Transforming;
use crate::url_ops::{UrlError, url_parsed, parse_url};

verus! {

/// The graph of assets and the dependencies between them.
pub struct AssetGraph {
    graph: AssetStore,
    root_ix: usize,
    ix_by_id: StringHashMap<usize>,
}

/// The index after the identifiers of `assets` have been recorded in turn,
/// the `k`-th of them at node `base + k`.
pub open spec fn indexed(m: Map<Seq<char>, usize>, assets: Seq<Asset>, base: int) -> Map<Seq<char>, usize>
    decreases assets.len(),
{
    if assets.len() == 0 {
        m
    } else {
        indexed(m, assets.drop_last(), base).insert(
            assets.last().id@,
            (base + assets.len() - 1) as usize,
        )
    }
}

/// The edges that attach `deps`, in turn, from `parent` to the nodes
/// numbered from `base` on.
pub open spec fn attaching_edges(parent: usize, deps: Seq<Dependency>, base: int) -> Seq<(usize, usize, Dependency)> {
    Seq::new(deps.len(), |k: int| (parent, (base + k) as usize, deps[k]))
}

/// The frames that the children numbered from `base` on add to a build plan:
/// the last child first, so that the first child is taken next.
pub open spec fn child_frames(deps: Seq<Vec<Dependency>>, base: int) -> Seq<(usize, Vec<Dependency>)> {
    Seq::new(deps.len(), |k: int| ((base + deps.len() - 1 - k) as usize, deps[deps.len() - 1 - k]))
}

/// The dependencies that stand for the entries of a build.
pub open spec fn entry_dependencies(entries: Seq<String>) -> Seq<Dependency> {
    Seq::new(entries.len(), |k: int| Dependency { is_async: false, specifier: entries[k] })
}

impl AssetGraph {
    /// The assets, by node index.
    pub closed spec fn nodes(&self) -> Seq<Asset> {
        store_nodes(self.graph)
    }

    /// The dependency edges, by edge index: importer, imported asset, dependency.
    pub closed spec fn edges(&self) -> Seq<(usize, usize, Dependency)> {
        store_edges(self.graph)
    }

    /// The index from asset identifiers to node indices.
    pub closed spec fn index(&self) -> Map<Seq<char>, usize> {
        self.ix_by_id@
    }

    /// The node index of the root asset.
    pub closed spec fn root(&self) -> usize {
        self.root_ix
    }

    /// Edge `k` enters node `k + 1` from an earlier node: every asset but the
    /// root was added through exactly one dependency, of an asset added before it.
    pub open spec fn edges_form_tree(&self) -> bool {
        &&& self.edges().len() + 1 == self.nodes().len()
        &&& forall|k: int|
            0 <= k < self.edges().len() ==> {
                &&& (#[trigger] self.edges()[k]).1 == k + 1
                &&& self.edges()[k].0 <= k
            }
    }

    /// The index holds exactly the identifiers of the assets in the graph,
    /// each mapped to a node that carries it.
    pub open spec fn index_is_exact(&self) -> bool {
        &&& forall|id: Seq<char>|
            #[trigger] self.index().dom().contains(id) ==> {
                &&& self.index()[id] < self.nodes().len()
                &&& self.nodes()[self.index()[id] as int].id@ == id
            }
        &&& forall|i: int|
            0 <= i < self.nodes().len() ==> self.index().dom().contains(
                #[trigger] self.nodes()[i].id@,
            )
    }

    /// The invariant that every operation of the graph keeps.
    pub open spec fn wf(&self) -> bool {
        &&& self.root() == 0
        &&& 1 <= self.nodes().len() < u32::MAX
        &&& self.edges_form_tree()
        &&& self.index_is_exact()
    }

    /// Whether `id` names an asset of the graph.
    pub open spec fn knows(&self, id: Seq<char>) -> bool {
        self.index().dom().contains(id)
    }

    /// A graph that holds only the root asset, identified by the URL that
    /// `root_id` parses to. `root_id` must parse (the graph cannot be made
    /// otherwise); `try_new` reports the parse error instead.
    pub fn new(root_id: &str) -> (g: AssetGraph)
        requires
            url_parsed(root_id@) is Ok,
        ensures
            g.wf(),
            g.nodes().len() == 1,
            g.nodes()[0].id@ == url_parsed(root_id@)->Ok_0,
            g.nodes()[0].content@ == Seq::<u8>::empty(),
            g.edges() == Seq::<(usize, usize, Dependency)>::empty(),
            g.index() == Map::<Seq<char>, usize>::empty().insert(url_parsed(root_id@)->Ok_0, 0),
    {
        let root_id = match parse_url(root_id) {
            Ok(id) => id,
            Err(_) => {
                proof {
                    assert(false);
                }
                String::new()
            },
        };
        Self::with_root(root_id)
    }

    /// `new`, or the error that parsing `root_id` reports.
    pub fn try_new(root_id: &str) -> (res: Result<AssetGraph, UrlError>)
        ensures
            match url_parsed(root_id@) {
                Ok(id) => res matches Ok(g) && {
                    &&& g.wf()
                    &&& g.nodes().len() == 1
                    &&& g.nodes()[0].id@ == id
                    &&& g.nodes()[0].content@ == Seq::<u8>::empty()
                    &&& g.edges() == Seq::<(usize, usize, Dependency)>::empty()
                    &&& g.index() == Map::<Seq<char>, usize>::empty().insert(id, 0)
                },
                Err(e) => res == Err::<AssetGraph, UrlError>(e),
            },
    {
        match parse_url(root_id) {
            Ok(id) => Ok(Self::with_root(id)),
            Err(e) => Err(e),
        }
    }

    fn with_root(root_id: String) -> (g: AssetGraph)
        ensures
            g.wf(),
            g.nodes().len() == 1,
            g.nodes()[0].id == root_id,
            g.nodes()[0].content@ == Seq::<u8>::empty(),
            g.edges() == Seq::<(usize, usize, Dependency)>::empty(),
            g.index() == Map::<Seq<char>, usize>::empty().insert(root_id@, 0),
    {
        let root = Asset::new(root_id.clone());
        let mut graph = store_new();
        let root_ix = store_add_node(&mut graph, root);
        let mut ix_by_id = StringHashMap::new();
        ix_by_id.insert(root_id, root_ix);
        let g = AssetGraph { graph, root_ix, ix_by_id };
        assert(g.nodes() =~= seq![root]);
        assert(g.index() =~= Map::<Seq<char>, usize>::empty().insert(root_id@, 0));
        g
    }

    /// The number of assets in the graph.
    pub fn node_count(&self) -> (n: usize)
        ensures
            n == self.nodes().len(),
    {
        store_node_count(&self.graph)
    }

    /// The asset at node `ix`, which must be a node of the graph.
    pub fn node(&self, ix: usize) -> (asset: &Asset)
        requires
            ix < self.nodes().len(),
        ensures
            *asset == self.nodes()[ix as int],
    {
        store_node(&self.graph, ix)
    }

    /// Whether an asset with identifier `id` is in the graph already.
    pub fn contains(&self, id: &str) -> (b: bool)
        ensures
            b == self.knows(id@),
    {
        self.ix_by_id.contains_key(id)
    }

    /// The node of the asset with identifier `id`, if it is in the graph.
    pub fn lookup(&self, id: &str) -> (ix: Option<usize>)
        ensures
            match ix {
                Some(i) => self.knows(id@) && i == self.index()[id@],
                None => !self.knows(id@),
            },
    {
        match self.ix_by_id.get(id) {
            Some(i) => Some(*i),
            None => None,
        }
    }

    /// Adds `to_node` as a new node, records its identifier, and adds the
    /// edge `edge` from `from_ix` to it; returns the new node's index.
    fn add_asset(&mut self, from_ix: usize, to_node: Asset, edge: Dependency) -> (ix: usize)
        requires
            old(self).wf(),
            from_ix < old(self).nodes().len(),
            old(self).nodes().len() + 1 < u32::MAX,
        ensures
            final(self).wf(),
            ix == old(self).nodes().len(),
            final(self).nodes() == old(self).nodes().push(to_node),
            final(self).edges() == old(self).edges().push((from_ix, ix, edge)),
            final(self).index() == old(self).index().insert(to_node.id@, ix),
    {
        let ghost old_g = *self;
        let id = to_node.id.clone();
        let ix = store_add_node(&mut self.graph, to_node);
        self.ix_by_id.insert(id, ix);
        store_add_edge(&mut self.graph, from_ix, ix, edge);
        assert forall|i: int| 0 <= i < self.nodes().len() implies self.index().dom().contains(
            #[trigger] self.nodes()[i].id@,
        ) by {
            if i < old_g.nodes().len() {
                assert(old_g.index().dom().contains(old_g.nodes()[i].id@));
            }
        }
        assert forall|id2: Seq<char>| #[trigger] self.index().dom().contains(id2) implies {
            &&& self.index()[id2] < self.nodes().len()
            &&& self.nodes()[self.index()[id2] as int].id@ == id2
        } by {
            if id2 != to_node.id@ {
                assert(old_g.index().dom().contains(id2));
            }
        }
        assert forall|k: int| 0 <= k < self.edges().len() implies {
            &&& (#[trigger] self.edges()[k]).1 == k + 1
            &&& self.edges()[k].0 <= k
        } by {
            if k < old_g.edges().len() {
                assert(old_g.edges()[k] == self.edges()[k]);
            }
        }
        ix
    }

    /// The build plan that starts a build from `entries`: one frame, for the
    /// root, holding a synchronous dependency for each entry.
    pub fn build_plan(&self, entries: Vec<String>) -> (plan: BuildPlan)
        requires
            self.wf(),
        ensures
            plan.pending().len() == 1,
            plan.pending()[0].0 == self.root(),
            plan.pending()[0].1@ == entry_dependencies(entries@),
            plan.pending()[0].1@.len() == entries@.len(),
            forall|k: int|
                0 <= k < entries@.len() ==> (#[trigger] plan.pending()[0].1@[k]).specifier == entries@[k]
                    && !plan.pending()[0].1@[k].is_async,
            plan.fits(self.nodes().len()),
    {
        let mut deps: Vec<Dependency> = Vec::new();
        let n = entries.len();
        let mut rest = entries;
        let mut i: usize = 0;
        while i < n
            invariant
                i <= n,
                rest@ == entries@.subrange(i as int, n as int),
                n == entries@.len(),
                deps@ == entry_dependencies(entries@).take(i as int),
            decreases n - i,
        {
            let specifier = rest.remove(0);
            deps.push(Dependency { is_async: false, specifier });
            i = i + 1;
            assert(deps@ =~= entry_dependencies(entries@).take(i as int));
        }
        assert(deps@ =~= entry_dependencies(entries@));
        proof {
            entries_become_dependencies_in_order(entries@);
        }
        let mut frames: Vec<(usize, Vec<Dependency>)> = Vec::new();
        frames.push((self.root_ix, deps));
        BuildPlan { frames }
    }

    /// Adds the children that a build found for node `parent`, in order: each
    /// asset becomes a new node, reached from `parent` through its dependency.
    /// Then a frame for each child, holding the dependencies found in it, is
    /// put on `plan`, so that the first child is built next and all of its
    /// assets come before those of the second child.
    fn attach_children(
        &mut self,
        plan: &mut BuildPlan,
        parent: usize,
        children: Vec<(Transforming, Dependency)>,
    )
        requires
            old(self).wf(),
            parent < old(self).nodes().len(),
            old(self).nodes().len() + children@.len() < u32::MAX,
            old(plan).fits(old(self).nodes().len()),
        ensures
            final(self).wf(),
            forall|id: Seq<char>| old(self).knows(id) ==> #[trigger] final(self).knows(id),
            forall|id: Seq<char>|
                old(self).knows(id) && (forall|k: int|
                    0 <= k < children@.len() ==> (#[trigger] children@[k]).0.asset.id@ != id)
                    ==> #[trigger] final(self).index()[id] == old(self).index()[id],
            final(self).nodes() == old(self).nodes() + children@.map_values(
                |c: (Transforming, Dependency)| c.0.asset,
            ),
            final(self).edges() == old(self).edges() + attaching_edges(
                parent,
                children@.map_values(|c: (Transforming, Dependency)| c.1),
                old(self).nodes().len() as int,
            ),
            final(self).index() == indexed(
                old(self).index(),
                children@.map_values(|c: (Transforming, Dependency)| c.0.asset),
                old(self).nodes().len() as int,
            ),
            final(plan).pending() == old(plan).pending() + child_frames(
                children@.map_values(|c: (Transforming, Dependency)| c.0.dependencies),
                old(self).nodes().len() as int,
            ),
            final(plan).fits(final(self).nodes().len()),
    {
        let ghost old_g = *self;
        let ghost base = old_g.nodes().len() as int;
        let ghost assets = children@.map_values(|c: (Transforming, Dependency)| c.0.asset);
        let ghost deps = children@.map_values(|c: (Transforming, Dependency)| c.1);
        let ghost found = children@.map_values(|c: (Transforming, Dependency)| c.0.dependencies);
        let n = children.len();
        let mut rest = children;
        let mut frames: Vec<(usize, Vec<Dependency>)> = Vec::new();
        let mut i: usize = 0;
        while i < n
            invariant
                i <= n,
                n == children@.len(),
                rest@ == children@.subrange(i as int, n as int),
                self.wf(),
                parent < old_g.nodes().len(),
                base == old_g.nodes().len(),
                base + n < u32::MAX,
                assets == children@.map_values(|c: (Transforming, Dependency)| c.0.asset),
                deps == children@.map_values(|c: (Transforming, Dependency)| c.1),
                found == children@.map_values(|c: (Transforming, Dependency)| c.0.dependencies),
                self.nodes() == old_g.nodes() + assets.take(i as int),
                self.edges() == old_g.edges() + attaching_edges(parent, deps.take(i as int), base),
                self.index() == indexed(old_g.index(), assets.take(i as int), base),
                frames@ == Seq::new(i as nat, |k: int| ((base + k) as usize, found[k])),
            decreases n - i,
        {
            let (t, dep) = rest.remove(0);
            let Transforming { asset, dependencies } = t;
            let ix = self.add_asset(parent, asset, dep);
            frames.push((ix, dependencies));
            i = i + 1;
            assert(assets.take(i as int).drop_last() =~= assets.take(i - 1));
            assert(self.nodes() =~= old_g.nodes() + assets.take(i as int));
            assert(self.edges() =~= old_g.edges() + attaching_edges(parent, deps.take(i as int), base));
            assert(frames@ =~= Seq::new(i as nat, |k: int| ((base + k) as usize, found[k])));
        }
        assert(assets.take(n as int) =~= assets);
        assert(deps.take(n as int) =~= deps);
        assert forall|id: Seq<char>| old_g.knows(id) implies #[trigger] self.knows(id) by {
            indexed_knows(old_g.index(), assets, base, id);
        }
        assert forall|id: Seq<char>|
            old_g.knows(id) && (forall|k: int|
                0 <= k < children@.len() ==> (#[trigger] children@[k]).0.asset.id@ != id)
            implies #[trigger] self.index()[id] == old_g.index()[id] by {
            assert forall|k: int| 0 <= k < assets.len() implies (#[trigger] assets[k]).id@ != id by {
                assert(assets[k] == children@[k].0.asset);
            }
            indexed_keeps_others(old_g.index(), assets, base, id);
        }
        let ghost old_pending = plan.pending();
        let mut j: usize = 0;
        while j < n
            invariant
                j <= n,
                n == children@.len(),
                n == found.len(),
                base + n < u32::MAX,
                frames@ == Seq::new((n - j) as nat, |k: int| ((base + k) as usize, found[k])),
                plan.pending() == old_pending + child_frames(found, base).take(j as int),
            decreases n - j,
        {
            let f = frames.pop().unwrap();
            plan.frames.push(f);
            j = j + 1;
            assert(frames@ =~= Seq::new((n - j) as nat, |k: int| ((base + k) as usize, found[k])));
            assert(plan.pending() =~= old_pending + child_frames(found, base).take(j as int));
        }
        assert(child_frames(found, base).take(n as int) =~= child_frames(found, base));
        assert forall|k: int| 0 <= k < plan.pending().len() implies (#[trigger] plan.pending()[k]).0
            < self.nodes().len() by {
            if k >= old_pending.len() {
                assert(plan.pending()[k] == child_frames(found, base)[k - old_pending.len()]);
            }
        }
    }
}

/// After the identifiers of `assets` are recorded, the index knows exactly
/// what it knew before and the identifiers of `assets`.
pub proof fn indexed_knows(m: Map<Seq<char>, usize>, assets: Seq<Asset>, base: int, id: Seq<char>)
    ensures
        indexed(m, assets, base).dom().contains(id) <==> (m.dom().contains(id) || exists|k: int|
            0 <= k < assets.len() && (#[trigger] assets[k]).id@ == id),
    decreases assets.len(),
{
    if assets.len() > 0 {
        let init = assets.drop_last();
        indexed_knows(m, init, base, id);
        if exists|k: int| 0 <= k < assets.len() && (#[trigger] assets[k]).id@ == id {
            let k = choose|k: int| 0 <= k < assets.len() && (#[trigger] assets[k]).id@ == id;
            if k < assets.len() - 1 {
                assert(init[k] == assets[k]);
            }
        }
        if exists|k: int| 0 <= k < init.len() && (#[trigger] init[k]).id@ == id {
            let k = choose|k: int| 0 <= k < init.len() && (#[trigger] init[k]).id@ == id;
            assert(assets[k] == init[k]);
        }
    }
}

/// Recording assets leaves the entry of an identifier that none of them
/// carries as it was.
pub proof fn indexed_keeps_others(m: Map<Seq<char>, usize>, assets: Seq<Asset>, base: int, id: Seq<char>)
    requires
        forall|k: int| 0 <= k < assets.len() ==> (#[trigger] assets[k]).id@ != id,
    ensures
        indexed(m, assets, base).dom().contains(id) == m.dom().contains(id),
        m.dom().contains(id) ==> indexed(m, assets, base)[id] == m[id],
    decreases assets.len(),
{
    if assets.len() > 0 {
        let init = assets.drop_last();
        assert forall|k: int| 0 <= k < init.len() implies (#[trigger] init[k]).id@ != id by {
            assert(init[k] == assets[k]);
        }
        indexed_keeps_others(m, init, base, id);
        assert(assets[assets.len() - 1].id@ != id);
    }
}

/// When several recorded assets carry the same identifier, the index maps it
/// to the node of the last of them.
pub proof fn indexed_keeps_last(m: Map<Seq<char>, usize>, assets: Seq<Asset>, base: int, k: int)
    requires
        0 <= k < assets.len(),
        0 <= base,
        base + assets.len() <= usize::MAX,
        forall|k2: int| k < k2 < assets.len() ==> (#[trigger] assets[k2]).id@ != assets[k].id@,
    ensures
        indexed(m, assets, base)[assets[k].id@] == base + k,
    decreases assets.len(),
{
    if k < assets.len() - 1 {
        let init = assets.drop_last();
        assert forall|k2: int| k < k2 < init.len() implies (#[trigger] init[k2]).id@ != init[k].id@ by {
            assert(init[k2] == assets[k2]);
        }
        indexed_keeps_last(m, init, base, k);
        assert(assets[assets.len() - 1].id@ != assets[k].id@);
    }
}

impl AssetGraph {
    /// The nodes on the way from the root to node `i`, following the edge
    /// through which each asset was added back to its importer.
    pub open spec fn path_from_root(&self, i: int) -> Seq<usize>
        decreases i,
    {
        if 0 < i && i <= self.edges().len() && self.edges()[i - 1].0 < i {
            self.path_from_root(self.edges()[i - 1].0 as int).push(i as usize)
        } else {
            seq![i as usize]
        }
    }

    /// Every asset of the graph is reached from the root: the path from the
    /// root to it starts at the root, ends at it, and each step is an edge of
    /// the graph.
    pub proof fn reachable_from_root(&self, i: int)
        requires
            self.wf(),
            0 <= i < self.nodes().len(),
        ensures
            self.path_from_root(i).len() >= 1,
            self.path_from_root(i)[0] == self.root(),
            self.path_from_root(i).last() == i,
            forall|k: int|
                0 <= k < self.path_from_root(i).len() - 1 ==> {
                    let e = self.edges()[self.path_from_root(i)[k + 1] - 1];
                    &&& 0 < #[trigger] self.path_from_root(i)[k + 1] <= self.edges().len()
                    &&& e.0 == self.path_from_root(i)[k]
                    &&& e.1 == self.path_from_root(i)[k + 1]
                },
        decreases i,
    {
        if i > 0 {
            let e = self.edges()[i - 1];
            assert(e.1 == i && e.0 <= i - 1);
            let p = e.0 as int;
            self.reachable_from_root(p);
            let prev = self.path_from_root(p);
            let path = self.path_from_root(i);
            assert(path == prev.push(i as usize));
            assert forall|k: int| 0 <= k < path.len() - 1 implies {
                let e2 = self.edges()[path[k + 1] - 1];
                &&& 0 < #[trigger] path[k + 1] <= self.edges().len()
                &&& e2.0 == path[k]
                &&& e2.1 == path[k + 1]
            } by {
                if k < prev.len() - 1 {
                    assert(path[k] == prev[k] && path[k + 1] == prev[k + 1]);
                } else {
                    assert(path[k] == prev.last());
                    assert(path[k + 1] == i);
                    let e3 = self.edges()[i - 1];
                    assert(e3 == e);
                }
            }
        }
    }

    /// Every asset but the root was imported through exactly one edge: the
    /// only edge that enters node `j` is edge `j - 1`, from an earlier node.
    pub proof fn single_importer(&self, j: int, k: int)
        requires
            self.wf(),
            0 <= k < self.edges().len(),
            self.edges()[k].1 == j,
        ensures
            k == j - 1,
            self.edges()[k].0 < j,
            j != self.root(),
    {
    }

    /// An identifier, once in the graph, stays: a well-formed graph whose
    /// assets extend those of another knows every identifier the other knows.
    pub proof fn known_ids_persist(&self, later: &AssetGraph, id: Seq<char>)
        requires
            self.wf(),
            later.wf(),
            self.nodes().len() <= later.nodes().len(),
            later.nodes().take(self.nodes().len() as int) == self.nodes(),
            self.knows(id),
        ensures
            later.knows(id),
    {
        let i = self.index()[id] as int;
        assert(later.nodes()[i] == later.nodes().take(self.nodes().len() as int)[i]);
        assert(later.index().dom().contains(later.nodes()[i].id@));
    }
}

/// After children are attached, the next frame of the plan is the first
/// child's: the build goes depth first, in the order of the dependencies.
pub proof fn first_child_is_next(found: Seq<Vec<Dependency>>, base: int)
    requires
        found.len() > 0,
        0 <= base,
        base + found.len() <= usize::MAX,
    ensures
        child_frames(found, base).last() == (base as usize, found[0]),
{
}

/// After children are attached, the build takes their frames in the order
/// of the children: the `k`-th frame taken is the `k`-th child's node, holding
/// the dependencies found in it.
pub proof fn children_are_taken_in_order(found: Seq<Vec<Dependency>>, base: int)
    requires
        0 <= base,
        base + found.len() <= usize::MAX,
    ensures
        child_frames(found, base).len() == found.len(),
        forall|k: int|
            0 <= k < found.len() ==> #[trigger] child_frames(found, base)[found.len() - 1 - k] == (
                (base + k) as usize,
                found[k],
            ),
{
    assert forall|k: int| 0 <= k < found.len() implies #[trigger] child_frames(found, base)[found.len() - 1
        - k] == ((base + k) as usize, found[k]) by {
        let j = found.len() - 1 - k;
        assert(found.len() - 1 - j == k);
    }
}

/// The edges that attach children all start at the importing node, enter
/// the children's nodes in turn, and carry the children's dependencies.
pub proof fn attached_edges_start_at_the_importer(parent: usize, deps: Seq<Dependency>, base: int)
    ensures
        attaching_edges(parent, deps, base).len() == deps.len(),
        forall|k: int|
            0 <= k < deps.len() ==> {
                &&& (#[trigger] attaching_edges(parent, deps, base)[k]).0 == parent
                &&& attaching_edges(parent, deps, base)[k].1 == (base + k) as usize
                &&& attaching_edges(parent, deps, base)[k].2 == deps[k]
            },
{
}

/// A build starts from one dependency per entry, in the entries' order, each
/// synchronous and with the entry as its specifier.
pub proof fn entries_become_dependencies_in_order(entries: Seq<String>)
    ensures
        entry_dependencies(entries).len() == entries.len(),
        forall|k: int|
            0 <= k < entries.len() ==> {
                &&& (#[trigger] entry_dependencies(entries)[k]).specifier == entries[k]
                &&& !entry_dependencies(entries)[k].is_async
            },
{
}

/// The children that the outcomes of a frame give: for each dependency of
/// the frame, in order, whose outcome is an asset, that asset paired with the
/// dependency. Only the first `n` dependencies are looked at.
pub open spec fn kept_children(outcomes: Seq<Option<Transforming>>, deps: Seq<Dependency>, n: nat) -> Seq<
    (Transforming, Dependency),
>
    decreases n,
{
    if n == 0 {
        Seq::empty()
    } else {
        let init = kept_children(outcomes, deps, (n - 1) as nat);
        match outcomes[n - 1] {
            Some(t) => init.push((t, deps[n - 1])),
            None => init,
        }
    }
}

/// Each child of a frame is the outcome of one of the frame's dependencies,
/// paired with that very dependency, and the children keep the order of the
/// dependencies.
pub proof fn kept_children_pair_with_frame(outcomes: Seq<Option<Transforming>>, deps: Seq<Dependency>, n: nat)
    requires
        n <= outcomes.len(),
        n <= deps.len(),
    ensures
        forall|j: int|
            0 <= j < kept_children(outcomes, deps, n).len() ==> exists|k: int|
                0 <= k < n && outcomes[k] == Some(#[trigger] kept_children(outcomes, deps, n)[j].0)
                    && kept_children(outcomes, deps, n)[j].1 == deps[k],
        kept_children(outcomes, deps, n).len() <= n,
    decreases n,
{
    if n > 0 {
        kept_children_pair_with_frame(outcomes, deps, (n - 1) as nat);
        let init = kept_children(outcomes, deps, (n - 1) as nat);
        let all = kept_children(outcomes, deps, n);
        assert forall|j: int| 0 <= j < all.len() implies exists|k: int|
            0 <= k < n && outcomes[k] == Some(#[trigger] all[j].0) && all[j].1 == deps[k] by {
            if j < init.len() {
                assert(all[j] == init[j]);
                let k = choose|k: int|
                    0 <= k < n - 1 && outcomes[k] == Some(#[trigger] init[j].0) && init[j].1 == deps[k];
                assert(outcomes[k] == Some(all[j].0) && all[j].1 == deps[k]);
            } else {
                assert(outcomes[n - 1] == Some(all[j].0));
            }
        }
    }
}

/// `pos` lists, increasing, exactly the positions among the first `n` whose
/// outcome is an asset, and `kept[j]` is the asset of outcome `pos[j]` with
/// dependency `pos[j]`.
pub open spec fn kept_at(
    kept: Seq<(Transforming, Dependency)>,
    outcomes: Seq<Option<Transforming>>,
    deps: Seq<Dependency>,
    n: nat,
    pos: Seq<int>,
) -> bool {
    &&& pos.len() == kept.len()
    &&& forall|j: int|
        0 <= j < pos.len() ==> {
            &&& 0 <= #[trigger] pos[j] < n
            &&& outcomes[pos[j]] == Some(kept[j].0)
            &&& kept[j].1 == deps[pos[j]]
        }
    &&& forall|j1: int, j2: int| 0 <= j1 < j2 < pos.len() ==> pos[j1] < pos[j2]
    &&& forall|k: int| 0 <= k < n && (#[trigger] outcomes[k]) is Some ==> pos.contains(k)
}

/// The children of a frame are exactly its outcomes that are assets, in the
/// order of the dependencies, whatever the dependencies say: every position
/// whose outcome is an asset gives one child, paired with that position's
/// dependency, and no other child is there.
pub proof fn every_outcome_is_kept(outcomes: Seq<Option<Transforming>>, deps: Seq<Dependency>, n: nat)
    requires
        n <= outcomes.len(),
        n <= deps.len(),
    ensures
        exists|pos: Seq<int>| #[trigger] kept_at(kept_children(outcomes, deps, n), outcomes, deps, n, pos),
    decreases n,
{
    let kept = kept_children(outcomes, deps, n);
    if n == 0 {
        let pos = Seq::<int>::empty();
        assert(kept_at(kept, outcomes, deps, n, pos));
    } else {
        every_outcome_is_kept(outcomes, deps, (n - 1) as nat);
        let init = kept_children(outcomes, deps, (n - 1) as nat);
        let pos0 = choose|pos: Seq<int>| #[trigger] kept_at(init, outcomes, deps, (n - 1) as nat, pos);
        if outcomes[n - 1] is Some {
            let pos = pos0.push(n - 1);
            assert(kept == init.push((outcomes[n - 1]->Some_0, deps[n - 1])));
            assert forall|j: int| 0 <= j < pos.len() implies {
                &&& 0 <= #[trigger] pos[j] < n
                &&& outcomes[pos[j]] == Some(kept[j].0)
                &&& kept[j].1 == deps[pos[j]]
            } by {
                if j < pos0.len() {
                    assert(pos[j] == pos0[j]);
                    assert(kept[j] == init[j]);
                }
            }
            assert forall|k: int| 0 <= k < n && (#[trigger] outcomes[k]) is Some implies pos.contains(k) by {
                if k < n - 1 {
                    assert(pos0.contains(k));
                    let j = choose|j: int| 0 <= j < pos0.len() && pos0[j] == k;
                    assert(pos[j] == k);
                } else {
                    assert(pos[pos.len() - 1] == k);
                }
            }
            assert forall|j1: int, j2: int| 0 <= j1 < j2 < pos.len() implies pos[j1] < pos[j2] by {
                if j2 < pos0.len() {
                    assert(pos[j1] == pos0[j1] && pos[j2] == pos0[j2]);
                } else {
                    assert(pos[j1] == pos0[j1]);
                    assert(0 <= pos0[j1] < n - 1);
                }
            }
            assert(kept_at(kept, outcomes, deps, n, pos));
        } else {
            assert(kept == init);
            assert forall|k: int| 0 <= k < n && (#[trigger] outcomes[k]) is Some implies pos0.contains(k) by {
                assert(k != n - 1);
            }
            assert(kept_at(kept, outcomes, deps, n, pos0));
        }
    }
}

impl AssetGraph {
    /// Which of the identifiers that the dependencies of a frame resolved to
    /// are to be loaded: exactly those not in the graph yet. An asset already
    /// in the graph is not loaded again.
    pub fn unknown_ids(&self, ids: &Vec<String>) -> (load: Vec<bool>)
        ensures
            load@.len() == ids@.len(),
            forall|k: int| 0 <= k < ids@.len() ==> load@[k] == !self.knows(#[trigger] ids@[k]@),
    {
        let mut load: Vec<bool> = Vec::new();
        let mut i: usize = 0;
        while i < ids.len()
            invariant
                i <= ids@.len(),
                load@.len() == i,
                forall|k: int| 0 <= k < i ==> load@[k] == !self.knows(#[trigger] ids@[k]@),
            decreases ids@.len() - i,
        {
            let known = self.contains(ids[i].as_str());
            load.push(!known);
            i = i + 1;
        }
        load
    }

    /// Completes a frame taken from `plan`: `outcomes` holds, for each
    /// dependency of the frame in order, the transformed asset it led to, or
    /// `None` where no asset is to be added (its identifier was known). Each
    /// asset becomes a new node, reached from the frame's node through its own
    /// dependency; then a frame for each new asset, holding the dependencies
    /// found in it, is put on `plan`, the first to be built next.
    pub fn complete_frame(
        &mut self,
        plan: &mut BuildPlan,
        frame: Frame,
        outcomes: Vec<Option<Transforming>>,
    )
        requires
            old(self).wf(),
            frame@.0 < old(self).nodes().len(),
            outcomes@.len() == frame@.1@.len(),
            old(self).nodes().len() + outcomes@.len() < u32::MAX,
            old(plan).fits(old(self).nodes().len()),
        ensures
            ({
                let kept = kept_children(outcomes@, frame@.1@, outcomes@.len());
                let base = old(self).nodes().len() as int;
                &&& final(self).wf()
                &&& final(self).nodes() == old(self).nodes() + kept.map_values(
                    |c: (Transforming, Dependency)| c.0.asset,
                )
                &&& final(self).edges() == old(self).edges() + attaching_edges(
                    frame@.0,
                    kept.map_values(|c: (Transforming, Dependency)| c.1),
                    base,
                )
                &&& final(self).index() == indexed(
                    old(self).index(),
                    kept.map_values(|c: (Transforming, Dependency)| c.0.asset),
                    base,
                )
                &&& final(plan).pending() == old(plan).pending() + child_frames(
                    kept.map_values(|c: (Transforming, Dependency)| c.0.dependencies),
                    base,
                )
                &&& final(plan).fits(final(self).nodes().len())
                &&& forall|id: Seq<char>| old(self).knows(id) ==> #[trigger] final(self).knows(id)
                &&& forall|id: Seq<char>|
                    old(self).knows(id) && (forall|k: int|
                        0 <= k < kept.len() ==> (#[trigger] kept[k]).0.asset.id@ != id)
                        ==> #[trigger] final(self).index()[id] == old(self).index()[id]
            }),
            forall|k: int|
                0 <= k < outcomes@.len() && (#[trigger] outcomes@[k]) is Some ==> {
                    &&& final(self).nodes().contains(outcomes@[k]->Some_0.asset)
                    &&& final(self).knows(outcomes@[k]->Some_0.asset.id@)
                },
            forall|k: int|
                old(self).edges().len() <= k < final(self).edges().len() ==> (
                #[trigger] final(self).edges()[k]).0 == frame@.0,
            ({
                let kept = kept_children(outcomes@, frame@.1@, outcomes@.len());
                forall|k: int|
                    0 <= k < kept.len() ==> #[trigger] final(plan).pending()[old(plan).pending().len()
                        + kept.len() - 1 - k] == (
                        (old(self).nodes().len() + k) as usize,
                        kept[k].0.dependencies,
                    )
            }),
    {
        let ghost old_g = *self;
        let ghost old_pending = plan.pending();
        let Frame { node: parent, dependencies: deps } = frame;
        let n = outcomes.len();
        let mut rest = outcomes;
        let mut rest_deps = deps;
        let mut children: Vec<(Transforming, Dependency)> = Vec::new();
        let mut k: usize = 0;
        while k < n
            invariant
                k <= n,
                n == outcomes@.len(),
                n == frame@.1@.len(),
                rest@ == outcomes@.subrange(k as int, n as int),
                rest_deps@ == frame@.1@.subrange(k as int, n as int),
                children@ == kept_children(outcomes@, frame@.1@, k as nat),
                children@.len() <= k,
            decreases n - k,
        {
            let outcome = rest.remove(0);
            let dep = rest_deps.remove(0);
            match outcome {
                Some(t) => {
                    children.push((t, dep));
                },
                None => {},
            }
            k = k + 1;
        }
        let ghost kept = children@;
        self.attach_children(plan, parent, children);
        proof {
            let base = old_g.nodes().len() as int;
            let assets = kept.map_values(|c: (Transforming, Dependency)| c.0.asset);
            let found = kept.map_values(|c: (Transforming, Dependency)| c.0.dependencies);
            let deps_of = kept.map_values(|c: (Transforming, Dependency)| c.1);
            every_outcome_is_kept(outcomes@, frame@.1@, n as nat);
            let pos = choose|pos: Seq<int>| #[trigger] kept_at(kept, outcomes@, frame@.1@, n as nat, pos);
            assert forall|k: int| 0 <= k < outcomes@.len() && (#[trigger] outcomes@[k]) is Some implies {
                &&& self.nodes().contains(outcomes@[k]->Some_0.asset)
                &&& self.knows(outcomes@[k]->Some_0.asset.id@)
            } by {
                assert(pos.contains(k));
                let j = choose|j: int| 0 <= j < pos.len() && pos[j] == k;
                assert(outcomes@[pos[j]] == Some(kept[j].0));
                assert(self.nodes()[base + j] == assets[j]);
                assert(self.nodes().contains(outcomes@[k]->Some_0.asset));
                assert(self.index().dom().contains(self.nodes()[base + j].id@));
            }
            attached_edges_start_at_the_importer(parent, deps_of, base);
            assert forall|k: int| old_g.edges().len() <= k < self.edges().len() implies (
            #[trigger] self.edges()[k]).0 == parent by {
                assert(self.edges()[k] == attaching_edges(parent, deps_of, base)[k - old_g.edges().len()]);
            }
            children_are_taken_in_order(found, base);
            assert forall|k: int| 0 <= k < kept.len() implies #[trigger] plan.pending()[old_pending.len()
                + kept.len() - 1 - k] == ((base + k) as usize, kept[k].0.dependencies) by {
                assert(child_frames(found, base)[found.len() - 1 - k] == ((base + k) as usize, found[k]));
                assert(plan.pending()[old_pending.len() + kept.len() - 1 - k] == child_frames(found, base)[
                    found.len() - 1 - k]);
            }
        }
    }
}

/// A frame taken from a build plan: a node of the graph and the dependencies
/// found in its asset, which the build resolves next. Only a plan makes one.
pub struct Frame {
    node: usize,
    dependencies: Vec<Dependency>,
}

impl View for Frame {
    type V = (usize, Vec<Dependency>);

    closed spec fn view(&self) -> (usize, Vec<Dependency>) {
        (self.node, self.dependencies)
    }
}

impl Frame {
    /// The node whose dependencies the frame holds.
    pub fn node(&self) -> (ix: usize)
        ensures
            ix == self@.0,
    {
        self.node
    }

    /// The dependencies of the frame's node, in order.
    pub fn dependencies(&self) -> (deps: &Vec<Dependency>)
        ensures
            *deps == self@.1,
    {
        &self.dependencies
    }
}

/// The frames that a build has yet to work on: each is a node of the graph
/// and the dependencies found in its asset. The last frame is taken first.
pub struct BuildPlan {
    frames: Vec<(usize, Vec<Dependency>)>,
}

impl BuildPlan {
    /// The pending frames; the last is the next to be taken.
    pub closed spec fn pending(&self) -> Seq<(usize, Vec<Dependency>)> {
        self.frames@
    }

    /// Every pending frame names a node of a graph with `n` nodes.
    pub open spec fn fits(&self, n: nat) -> bool {
        forall|k: int| 0 <= k < self.pending().len() ==> (#[trigger] self.pending()[k]).0 < n
    }

    /// Takes the next frame: the most recently added one that is pending.
    pub fn next(&mut self) -> (frame: Option<Frame>)
        ensures
            old(self).pending().len() == 0 ==> frame is None && final(self).pending() == old(
                self,
            ).pending(),
            old(self).pending().len() > 0 ==> (frame matches Some(f) && f@ == old(
                self,
            ).pending().last()),
            old(self).pending().len() > 0 ==> final(self).pending() == old(self).pending().drop_last(),
            forall|n: nat| old(self).fits(n) ==> final(self).fits(n),
    {
        match self.frames.pop() {
            Some((node, dependencies)) => Some(Frame { node, dependencies }),
            None => None,
        }
    }

    /// Whether no frame is pending.
    pub fn is_done(&self) -> (b: bool)
        ensures
            b == (self.pending().len() == 0),
    {
        self.frames.len() == 0
    }
}

} // verus!
