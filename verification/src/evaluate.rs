//! Settings of an evaluation run.
use vstd::prelude::*;

verus! {

/// Evaluates a module on a dataset with a metric: how many examples to run
/// at once, and whether to show progress.
pub struct Evaluate {
    pub num_threads: usize,
    pub display_progress: bool,
}

impl Evaluate {
    /// The default settings: four at once, with progress shown.
    pub fn new() -> (r: Evaluate)
        ensures
            r.num_threads == 4,
            r.display_progress,
    {
        Evaluate { num_threads: 4, display_progress: true }
    }

    /// These settings with `n` examples run at once.
    pub fn with_threads(self, n: usize) -> (r: Evaluate)
        ensures
            r.num_threads == n,
            r.display_progress == self.display_progress,
    {
        let mut r = self;
        r.num_threads = n;
        r
    }
}

impl Default for Evaluate {
    fn default() -> (r: Evaluate)
        ensures
            r.num_threads == 4,
            r.display_progress,
    {
        Evaluate::new()
    }
}

} // verus!
