use vstd::prelude::*;

verus! {

/// What the training loop owes after one more example has been processed.
#[derive(Clone, Copy, Debug, PartialEq, Eq, Structural)]
pub enum TrainAction {
    /// Keep training; nothing to report.
    Continue,
    /// An averaging window just filled: report the average training loss.
    LogAverage,
    /// An averaging window just filled and the test gap elapsed: report the
    /// average training loss and evaluate on the held-out test examples.
    LogAverageAndTest,
}

/// Bookkeeping for the training loop: how many examples of the current
/// averaging window have been seen, and how many windows have elapsed since
/// the last test-set evaluation.
pub struct TrainSchedule {
    window: usize,
    test_gaps: usize,
    index: usize,
    test_count: usize,
}

impl TrainSchedule {
    /// Size of the averaging window.
    pub closed spec fn window(self) -> usize {
        self.window
    }

    /// Number of windows between two test-set evaluations.
    pub closed spec fn test_gaps(self) -> usize {
        self.test_gaps
    }

    /// Position within the current averaging window.
    pub closed spec fn index(self) -> usize {
        self.index
    }

    /// Windows completed since the last test-set evaluation.
    pub closed spec fn test_count(self) -> usize {
        self.test_count
    }

    /// The counters never run past their bounds.
    pub closed spec fn wf(self) -> bool {
        &&& self.window >= 1
        &&& self.test_gaps >= 1
        &&& self.index < self.window
        &&& self.test_count < self.test_gaps
    }

    /// Start a schedule that reports the average loss every `window` examples
    /// and evaluates on the test set every `test_gaps` windows.
    pub fn new(window: usize, test_gaps: usize) -> (s: TrainSchedule)
        requires
            window >= 1,
            test_gaps >= 1,
        ensures
            s.wf(),
            s.window() == window,
            s.test_gaps() == test_gaps,
            s.index() == 0,
            s.test_count() == 0,
    {
        TrainSchedule { window, test_gaps, index: 0, test_count: 0 }
    }

    /// Record one processed example and say what the loop owes now: nothing
    /// until the window fills; when it fills, a loss report, and additionally
    /// a test-set evaluation once every `test_gaps` windows.
    pub fn step(&mut self) -> (action: TrainAction)
        requires
            old(self).wf(),
        ensures
            final(self).wf(),
            final(self).window() == old(self).window(),
            final(self).test_gaps() == old(self).test_gaps(),
            old(self).index() + 1 < old(self).window() ==> {
                &&& action == TrainAction::Continue
                &&& final(self).index() == old(self).index() + 1
                &&& final(self).test_count() == old(self).test_count()
            },
            old(self).index() + 1 == old(self).window() ==> {
                &&& final(self).index() == 0
                &&& (if old(self).test_count() + 1 == old(self).test_gaps() {
                    action == TrainAction::LogAverageAndTest && final(self).test_count() == 0
                } else {
                    action == TrainAction::LogAverage && final(self).test_count() == old(
                        self,
                    ).test_count() + 1
                })
            },
    {
        if self.index + 1 < self.window {
            self.index = self.index + 1;
            TrainAction::Continue
        } else {
            self.index = 0;
            if self.test_count + 1 == self.test_gaps {
                self.test_count = 0;
                TrainAction::LogAverageAndTest
            } else {
                self.test_count = self.test_count + 1;
                TrainAction::LogAverage
            }
        }
    }
}

/// How many examples may be sampled for training once the last `test_size`
/// examples of a dataset are held out for testing; nothing is left when the
/// dataset is no larger than the held-out part.
pub fn train_pool_size(dataset_len: usize, test_size: usize) -> (r: Option<usize>)
    ensures
        dataset_len > test_size ==> r == Some((dataset_len - test_size) as usize),
        dataset_len <= test_size ==> r is None,
{
    if dataset_len > test_size {
        Some(dataset_len - test_size)
    } else {
        None
    }
}

} // verus!
