//! The progress tracker of a pipeline run: an append-only log of lines and
//! a completion value in per-mille, created at the start of a run and
//! discarded at its end. Stages push their header and output lines into
//! it; the wizard reads it back.

use vstd::prelude::*;
use crate::text::{spec_split, split_on};

verus! {

/// The current progress of the installation.
pub struct InstallProgress {
    /// Logs.
    logs: Vec<String>,
    /// Progress in per-mille, between 0 and 1000.
    progress: u16,
}

impl InstallProgress {
    /// The logged lines.
    pub closed spec fn spec_logs(&self) -> Seq<Seq<char>> {
        self.logs@.map_values(|s: String| s@)
    }

    /// The completion value, in per-mille.
    pub closed spec fn spec_progress(&self) -> u16 {
        self.progress
    }

    /// The tracker's invariant: the completion value stays in range.
    pub open spec fn wf(&self) -> bool {
        self.spec_progress() <= 1000
    }

    /// Creates a tracker with an empty log and no progress.
    pub fn new() -> (r: Self)
        ensures
            r.wf(),
            r.spec_logs() == Seq::<Seq<char>>::empty(),
            r.spec_progress() == 0,
    {
        let r = InstallProgress { logs: Vec::new(), progress: 0 };
        proof {
            assert(r.spec_logs() =~= Seq::<Seq<char>>::empty());
        }
        r
    }

    /// Inserts the given logs: the text is split on line breaks and each
    /// resulting line is appended.
    pub fn log(&mut self, s: &str)
        requires
            old(self).wf(),
        ensures
            final(self).wf(),
            final(self).spec_logs() == old(self).spec_logs() + spec_split(s@, '\n'),
            final(self).spec_progress() == old(self).spec_progress(),
    {
        let ghost pieces = spec_split(s@, '\n');
        let ghost opl = self.logs@.len() as int;
        let lines = split_on(s, '\n');
        let n = lines.len();
        let mut i: usize = 0;
        while i < n
            invariant
                0 <= i <= n == lines@.len(),
                lines@.len() == pieces.len(),
                forall|k: int| 0 <= k < n ==> #[trigger] lines@[k]@ == pieces[k],
                self.logs@.len() == opl + i,
                opl == old(self).logs@.len(),
                forall|k: int| 0 <= k < opl ==> #[trigger] self.logs@[k] == old(self).logs@[k],
                forall|k: int| opl <= k < opl + i ==> #[trigger] self.logs@[k]@ == pieces[k - opl],
                self.spec_progress() == old(self).spec_progress(),
            decreases n - i,
        {
            let line = lines[i].clone();
            self.logs.push(line);
            i = i + 1;
        }
        proof {
            let total = old(self).spec_logs() + pieces;
            assert(self.spec_logs().len() == total.len());
            assert forall|k: int| 0 <= k < total.len() implies self.spec_logs()[k] == total[k] by {
                assert(self.spec_logs()[k] == self.logs@[k]@);
                if k < opl {
                    assert(self.logs@[k] == old(self).logs@[k]);
                    assert(total[k] == old(self).spec_logs()[k]);
                    assert(old(self).spec_logs()[k] == old(self).logs@[k]@);
                } else {
                    assert(self.logs@[k]@ == pieces[k - opl]);
                    assert(total[k] == pieces[k - opl]);
                }
            };
            assert(self.spec_logs() =~= total);
        }
    }

    /// Returns the installation logs.
    pub fn get_logs(&self) -> (r: &[String])
        ensures
            r@.map_values(|s: String| s@) == self.spec_logs(),
    {
        self.logs.as_slice()
    }

    /// Returns the current advancement of the installation, represented by
    /// a value between 0 and 1000.
    pub fn get_progress(&self) -> (r: u16)
        requires
            self.wf(),
        ensures
            r == self.spec_progress(),
            r <= 1000,
    {
        self.progress
    }

    /// Sets the current advancement of the installation, represented by a
    /// value between 0 and 1000. Monotonicity across a run is the
    /// caller's responsibility.
    pub fn set_progress(&mut self, progress: u16)
        requires
            old(self).wf(),
            progress <= 1000,
        ensures
            final(self).wf(),
            final(self).spec_progress() == progress,
            final(self).spec_logs() == old(self).spec_logs(),
    {
        self.progress = progress;
    }
}

} // verus!
