//! Transformers that answer at once.
use vstd::prelude::*;
use crate::path_keyed::asset::Asset;

verus! {

/// Turns an asset into its transformed form.
pub trait Transformer {
    fn transform(args: TransformArgs) -> TransformResult;
}

/// What a transformer is given: the asset.
pub struct TransformArgs {
    pub asset: Asset,
}

/// What a transformer answers: the transformed asset.
pub struct TransformResult {
    pub asset: Asset,
}

} // verus!
