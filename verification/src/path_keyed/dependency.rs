//! Dependencies between path-identified assets.
use vstd::prelude::*;

verus! {

/// A dependency of one asset on another.
pub struct Dependency {
    pub is_async: bool,
}

} // verus!
