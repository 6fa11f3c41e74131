//! Plugins and the values that pass between them and the graph builder.
use vstd::prelude::*;
use crate::path_keyed::asset::Asset;
use crate::path_keyed::dependency::Dependency;

verus! {

/// A plugin of the build, known by its name.
pub trait Plugin: Send + Sync {
    fn name(&self) -> &'static str;
}

/// What a resolver is given: the importing asset, the specifier to resolve,
/// and the dependency it stands for.
pub struct ResolveArgs<'a, 's, 'd> {
    pub importer: &'a Asset,
    pub specifier: &'s str,
    pub dependency: &'d Dependency,
}

/// What a resolver answers: the path that a specifier names.
pub struct ResolveResult {
    pub path: Vec<u8>,
}

/// What a transformer is given: the asset to transform.
pub struct TransformArgs {
    pub asset: Asset,
}

/// What a transformer answers: the transformed asset.
pub struct TransformResult {
    pub asset: Asset,
}

} // verus!
