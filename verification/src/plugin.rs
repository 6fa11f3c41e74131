//! The values that pass between the graph builder and its plugins.
use vstd::prelude::*;
use crate::asset::Asset;
use crate::dependency::Dependency;

verus! {

/// What a resolver is given: the importing asset and the dependency to resolve.
pub struct ResolveArgs<'a, 'd> {
    pub importer: &'a Asset,
    pub dependency: &'d Dependency,
}

/// What a resolver answers: the identifier of the asset a dependency names.
pub struct ResolveResult {
    pub asset_id: String,
}

/// What a loader is given: the identifier of the asset to load.
pub struct LoadArgs<'i> {
    pub asset_id: &'i str,
}

/// What a loader answers: the bytes of the asset.
pub struct LoadResult {
    pub content: Vec<u8>,
}

/// An asset under transformation, with the dependencies found in it so far.
pub struct Transforming {
    pub asset: Asset,
    pub dependencies: Vec<Dependency>,
}

} // verus!
