use vstd::prelude::*;

verus! {

/// Arguments of an on-demand scan.
pub struct Scan {
    /// Paths that should be scanned; empty means the configured or default
    /// roots.
    pub paths: Vec<String>,
    /// How many scanning workers to run; defaults to the number of
    /// processing units.
    pub concurrency: Option<usize>,
}

impl Scan {
    /// A scan of the default roots with the default worker count.
    pub fn new() -> (r: Scan)
        ensures
            r.paths@.len() == 0,
            r.concurrency is None,
    {
        Scan { paths: Vec::new(), concurrency: None }
    }
}

/// Arguments of the scheduler daemon; it takes none.
pub struct Scheduler {}

/// Arguments of the threat-listing command.
pub struct Infections {
    /// Interactively offer deletion of every recorded file.
    pub delete: bool,
    /// Delete every recorded file without further confirmation.
    pub delete_all: bool,
}

} // verus!
