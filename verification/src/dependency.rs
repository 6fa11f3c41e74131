//! Dependencies: the edges of the asset graph.
use vstd::prelude::*;

verus! {

/// A dependency of one asset on another, as the importer wrote it.
pub struct Dependency {
    pub is_async: bool,
    pub specifier: String,
}

} // verus!
