//! Resolvers that answer at once.
use vstd::prelude::*;
use crate::path_keyed::dependency::Dependency;

verus! {

/// Turns a specifier into the path of the asset it names.
pub trait Resolver {
    fn resolve(&mut self, args: ResolveArgs) -> ResolveResult;
}

/// What a resolver is given: the specifier and the dependency it stands for.
pub struct ResolveArgs {
    pub specifier: Vec<u8>,
    pub dependency: Dependency,
}

/// What a resolver answers: the path of the asset.
pub struct ResolveResult {
    pub path: Vec<u8>,
}

} // verus!
