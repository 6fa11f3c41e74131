//! Assets: the files of a build, identified by a URL.
use vstd::prelude::*;

verus! {

/// One asset of the graph: its identifier (a serialized URL) and its bytes.
pub struct Asset {
    pub id: String,
    pub content: Vec<u8>,
}

impl Asset {
    /// An asset with the given identifier and no content yet.
    pub fn new(id: String) -> (asset: Asset)
        ensures
            asset.id == id,
            asset.content@ == Seq::<u8>::empty(),
    {
        Asset { id, content: Vec::new() }
    }

    /// Replaces the content of the asset; the identifier stays.
    pub fn set_content(&mut self, content: Vec<u8>)
        ensures
            final(self).id == old(self).id,
            final(self).content == content,
    {
        self.content = content;
    }
}

} // verus!
