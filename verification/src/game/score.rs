//! The running tally of answered items.
use vstd::prelude::*;

verus! {

/// How many items were answered, and how many of those correctly.
pub struct Score {
    pub correct: usize,
    pub total: usize,
}

impl Score {
    /// Never more correct answers than answers.
    pub open spec fn wf(self) -> bool {
        self.correct <= self.total
    }

    pub fn reset(&mut self)
        ensures
            final(self).correct == 0,
            final(self).total == 0,
            final(self).wf(),
    {
        self.correct = 0;
        self.total = 0;
    }

    /// Count one answered item, and its correctness.
    pub fn tally(&mut self, is_correct: bool)
        requires
            old(self).wf(),
            old(self).total < usize::MAX,
        ensures
            final(self).total == old(self).total + 1,
            final(self).correct == old(self).correct + if is_correct {
                1int
            } else {
                0int
            },
            final(self).wf(),
    {
        self.total = self.total + 1;
        if is_correct {
            self.correct = self.correct + 1;
        }
    }
}

impl Default for Score {
    fn default() -> (r: Score)
        ensures
            r.correct == 0,
            r.total == 0,
            r.wf(),
    {
        Score { correct: 0, total: 0 }
    }
}

} // verus!
