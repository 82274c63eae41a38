use vstd::prelude::*;

verus! {

/// What a run is asked to do: scan `source_dir` and copy what it finds into `target_dir`.
pub struct Args {
    /// The directory to scan for images.
    pub source_dir: String,
    /// The directory that receives the copies.
    pub target_dir: String,
}

} // verus!
