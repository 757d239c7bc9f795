use vstd::prelude::*;

verus! {

/// Severity rank of the informational log level, counting the most severe
/// level (errors) as 1 and the most verbose (trace) as 5.
pub const INFO_RANK: usize = 3;

/// The console logger.  Printing and timestamping happen at the edge of the
/// system; the one decision the logger makes, which records are printed at
/// all, is taken here.
pub struct CustomLogger;

impl CustomLogger {
    /// Whether a record whose level has the given severity rank is printed:
    /// exactly the records no more verbose than the informational level.
    pub fn enabled_rank(rank: usize) -> (r: bool)
        ensures
            r == (rank <= INFO_RANK),
    {
        rank <= INFO_RANK
    }
}

} // verus!
