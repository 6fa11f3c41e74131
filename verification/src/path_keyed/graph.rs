//! The graph of modules.
use vstd::prelude::*;
use crate::path_keyed::dependency::Dependency;
use crate::path_keyed::graph_store::{ModuleStore, module_store_nodes, module_store_edges, module_store_new};
use crate::path_keyed::module::Module;

verus! {

/// A graph of modules and the dependencies between them.
pub struct ModuleGraph {
    inner: ModuleStore,
}

impl ModuleGraph {
    /// The modules, by node index.
    pub closed spec fn modules(&self) -> Seq<Module> {
        module_store_nodes(self.inner)
    }

    /// The dependencies, by edge index: source, target and dependency.
    pub closed spec fn dependencies(&self) -> Seq<(usize, usize, Dependency)> {
        module_store_edges(self.inner)
    }

    /// An empty graph.
    pub fn new() -> (g: ModuleGraph)
        ensures
            g.modules() == Seq::<Module>::empty(),
            g.dependencies() == Seq::<(usize, usize, Dependency)>::empty(),
    {
        ModuleGraph { inner: module_store_new() }
    }

    /// Building leaves the module graph as it is.
    pub fn build(&mut self)
        ensures
            *final(self) == *old(self),
    {
    }
}

} // verus!
