//! The base directory that relative asset paths are resolved against.
//! Reading the files themselves is the embedding's I/O.

use vstd::prelude::*;

verus! {

/// Source of bundled assets: holds the base directory; the embedding joins
/// asset names onto it and reads the files.
pub struct Assets {
    pub base: String,
}

impl Assets {
    /// An asset source rooted at `base`.
    pub fn new(base: &str) -> (r: Self)
        ensures
            r.base@ == base@,
    {
        Assets { base: base.to_owned() }
    }
}

} // verus!
