//! Assets identified by file paths.
use vstd::prelude::*;

verus! {

/// An asset: the path it was read from (the bytes of the operating system's
/// encoding), its bytes, and the specifiers of its dependencies.
pub struct Asset {
    pub path: Vec<u8>,
    pub content: Vec<u8>,
    pub dependency_specifiers: Vec<String>,
}

impl Asset {
    /// The asset read from `path` with bytes `content`; its dependencies are
    /// not known yet.
    pub fn loaded(path: Vec<u8>, content: Vec<u8>) -> (asset: Asset)
        ensures
            asset.path == path,
            asset.content == content,
            asset.dependency_specifiers@ == Seq::<String>::empty(),
    {
        Asset { path, content, dependency_specifiers: Vec::new() }
    }
}

} // verus!
