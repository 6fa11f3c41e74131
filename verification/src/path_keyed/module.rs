//! Modules: the code of an asset, once it is known.
use vstd::prelude::*;

verus! {

/// A module: the path it comes from and its code.
pub struct Module {
    path: Vec<u8>,
    code: String,
}

/// A module under construction, whose code may not be known yet.
pub struct ModuleBuilder {
    path: Vec<u8>,
    code: Option<String>,
}

} // verus!
