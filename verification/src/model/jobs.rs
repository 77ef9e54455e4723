//! The panel of a session's jobs: a mirror of what the server reports, never
//! more.

use vstd::prelude::*;

use crate::model::select::{keep_within, kept_within, move_in, moved};

verus! {

/// How far a job is.
#[derive(Debug, Clone, Copy, PartialEq, Eq, Structural)]
pub enum SessionJobStatus {
    Running,
    Stopping,
    Completed,
    Failed,
    Killed,
}

/// A job of a session.
#[derive(Debug, Clone, PartialEq, Eq)]
pub struct SessionJob {
    pub id: String,
    pub kind: String,
    pub label: String,
    pub status: Option<SessionJobStatus>,
}

/// Whether a job runs or is stopping.
pub open spec fn is_active(j: SessionJob) -> bool {
    j.status == Some(SessionJobStatus::Running) || j.status == Some(SessionJobStatus::Stopping)
}

/// The panel of the jobs.
#[derive(Debug, Clone, PartialEq, Eq)]
pub struct JobsPanelState {
    pub visible: bool,
    pub jobs: Vec<SessionJob>,
    pub selected: usize,
    pub last_error_code: Option<String>,
}

impl Default for JobsPanelState {
    fn default() -> (r: Self)
        ensures
            !r.visible,
            r.jobs@.len() == 0,
            r.selected == 0,
            r.last_error_code is None,
    {
        JobsPanelState { visible: false, jobs: Vec::new(), selected: 0, last_error_code: None }
    }
}

impl JobsPanelState {
    /// Opens the panel.
    pub fn open(&mut self)
        ensures
            *final(self) == (JobsPanelState {
                visible: true,
                last_error_code: None,
                ..*old(self)
            }),
    {
        self.visible = true;
        self.last_error_code = None;
    }

    /// Closes the panel and forgets what it held.
    pub fn close(&mut self)
        ensures
            !final(self).visible,
            final(self).jobs@.len() == 0,
            final(self).selected == 0,
            final(self).last_error_code is None,
    {
        *self = JobsPanelState::default();
    }

    /// Takes over the jobs that the server reports, in place of all before.
    pub fn replace(&mut self, jobs: Vec<SessionJob>)
        ensures
            final(self).jobs == jobs,
            final(self).selected == kept_within(old(self).selected as int, jobs@.len() as int),
            final(self).visible == old(self).visible,
            final(self).last_error_code == old(self).last_error_code,
    {
        self.selected = keep_within(self.selected, jobs.len());
        self.jobs = jobs;
    }

    /// Number of jobs that run or are stopping.
    pub fn active_count(&self) -> (r: usize)
        ensures
            r == self.jobs@.filter(|j: SessionJob| is_active(j)).len(),
    {
        let ghost p = |j: SessionJob| is_active(j);
        let mut n: usize = 0;
        let mut i: usize = 0;
        assert(self.jobs@.take(0).filter(p).len() == 0) by {
            reveal(Seq::filter);
        }
        while i < self.jobs.len()
            invariant
                i <= self.jobs@.len(),
                p == (|j: SessionJob| is_active(j)),
                n == self.jobs@.take(i as int).filter(p).len(),
                n <= i,
            decreases self.jobs@.len() - i,
        {
            reveal(Seq::filter);
            assert(self.jobs@.take(i + 1).drop_last() =~= self.jobs@.take(i as int));
            let active = match self.jobs[i].status {
                Some(s) => s == SessionJobStatus::Running || s == SessionJobStatus::Stopping,
                None => false,
            };
            if active {
                n = n + 1;
            }
            i = i + 1;
        }
        assert(self.jobs@.take(i as int) =~= self.jobs@);
        n
    }

    /// Moves the selection; it stops at the ends.
    pub fn move_selection(&mut self, delta: isize)
        ensures
            final(self).selected == if old(self).jobs@.len() == 0 {
                old(self).selected as int
            } else {
                moved(old(self).selected as int, delta as int, old(self).jobs@.len() as int)
            },
            final(self).jobs == old(self).jobs,
            final(self).visible == old(self).visible,
            final(self).last_error_code == old(self).last_error_code,
    {
        if self.jobs.len() == 0 {
            return;
        }
        self.selected = move_in(self.selected, delta, self.jobs.len());
    }
}

/// A job counts as active while it runs or is stopping, and not once it ended.
pub proof fn law_ended_jobs_are_not_active(j: SessionJob)
    ensures
        j.status is None ==> !is_active(j),
        j.status is Some ==> (is_active(j) <==> j.status->0 != SessionJobStatus::Completed
            && j.status->0 != SessionJobStatus::Failed && j.status->0
            != SessionJobStatus::Killed),
{
}

} // verus!
