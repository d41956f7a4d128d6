use vstd::prelude::*;

use crate::error::MyError;

verus! {

/// What the caller does next for the run.
#[derive(Debug, Clone, Copy)]
pub enum Step {
    /// Open the source at this index and report whether it opened.
    OpenSource(usize),
    /// Start the sink writers and the read workers.
    SpawnTasks,
    /// Wait for the next task to end.
    Wait,
    /// Close the routing channel: every read worker has ended.
    CloseChannel,
    /// The run is over, with this outcome.
    Finish(Result<(), MyError>),
}

/// The order in which a run starts and shuts down.
///
/// Every source is opened before any task starts, and a source that does not
/// open ends the run at once. The routing channel is closed once, after every
/// read worker has ended; the run ends after every sink writer has ended. The
/// run's outcome is the first error reported, in the order of reports.
pub struct Orchestrator {
    pub n_sources: usize,
    pub n_sinks: usize,
    /// Sources opened so far.
    pub opened: usize,
    pub spawned: bool,
    pub readers_left: usize,
    pub closed: bool,
    pub writers_left: usize,
    pub finished: bool,
    pub first_error: Option<MyError>,
}

/// The first error of the two, in order.
pub open spec fn keep_first(first: Option<MyError>, outcome: Result<(), MyError>) -> Option<MyError> {
    match first {
        Some(e) => Some(e),
        None => match outcome {
            Ok(()) => None,
            Err(e) => Some(e),
        },
    }
}

pub open spec fn outcome_of(first: Option<MyError>) -> Result<(), MyError> {
    match first {
        Some(e) => Err(e),
        None => Ok(()),
    }
}

impl Orchestrator {
    pub open spec fn wf(&self) -> bool {
        &&& self.opened <= self.n_sources
        &&& self.spawned ==> self.opened == self.n_sources
        &&& !self.spawned ==> self.readers_left == 0 && self.writers_left == 0 && !self.closed
        &&& self.readers_left <= self.n_sources
        &&& self.writers_left <= self.n_sinks
        &&& self.closed ==> self.spawned && self.readers_left == 0
        &&& !self.closed ==> self.writers_left == self.n_sinks || !self.spawned
    }

    /// A run over `n_sources` sources and `n_sinks` sinks; the first step opens source 0.
    pub fn new(n_sources: usize, n_sinks: usize) -> (r: (Orchestrator, Step))
        requires
            n_sources > 0,
        ensures
            r.0.wf(),
            r.0.n_sources == n_sources,
            r.0.n_sinks == n_sinks,
            r.0.opened == 0,
            !r.0.spawned,
            !r.0.finished,
            r.0.first_error is None,
            r.1 == Step::OpenSource(0),
    {
        let o = Orchestrator {
            n_sources,
            n_sinks,
            opened: 0,
            spawned: false,
            readers_left: 0,
            closed: false,
            writers_left: 0,
            finished: false,
            first_error: None,
        };
        (o, Step::OpenSource(0))
    }

    /// Reports whether the source asked for by the last step opened.
    pub fn source_opened(&mut self, ok: bool) -> (s: Step)
        requires
            old(self).wf(),
            !old(self).spawned,
            !old(self).finished,
            old(self).opened < old(self).n_sources,
        ensures
            final(self).wf(),
            final(self).n_sources == old(self).n_sources,
            final(self).n_sinks == old(self).n_sinks,
            !ok ==> s == Step::Finish(Err(MyError::SourceOpenError { source: old(self).opened }))
                && final(self).finished && !final(self).spawned,
            ok && old(self).opened + 1 < old(self).n_sources ==> s == Step::OpenSource((old(self).opened + 1) as usize)
                && !final(self).spawned && !final(self).finished && final(self).opened == old(self).opened + 1,
            ok && old(self).opened + 1 == old(self).n_sources ==> s == Step::SpawnTasks && final(self).spawned
                && !final(self).finished && final(self).readers_left == final(self).n_sources
                && final(self).writers_left == final(self).n_sinks && !final(self).closed,
            final(self).first_error == old(self).first_error || !ok,
    {
        if !ok {
            let e = MyError::SourceOpenError { source: self.opened };
            self.first_error = Some(e);
            self.finished = true;
            return Step::Finish(Err(e));
        }
        self.opened = self.opened + 1;
        if self.opened < self.n_sources {
            Step::OpenSource(self.opened)
        } else {
            self.spawned = true;
            self.readers_left = self.n_sources;
            self.writers_left = self.n_sinks;
            Step::SpawnTasks
        }
    }

    /// Reports that a read worker ended, with its outcome.
    pub fn reader_joined(&mut self, outcome: Result<(), MyError>) -> (s: Step)
        requires
            old(self).wf(),
            old(self).spawned,
            !old(self).finished,
            old(self).readers_left > 0,
        ensures
            final(self).wf(),
            final(self).n_sources == old(self).n_sources,
            final(self).n_sinks == old(self).n_sinks,
            final(self).spawned,
            !final(self).finished,
            final(self).readers_left == old(self).readers_left - 1,
            final(self).first_error == keep_first(old(self).first_error, outcome),
            final(self).readers_left == 0 ==> s == Step::CloseChannel && final(self).closed,
            final(self).readers_left > 0 ==> s == Step::Wait && !final(self).closed,
            final(self).writers_left == old(self).writers_left,
    {
        self.readers_left = self.readers_left - 1;
        if self.first_error.is_none() {
            if let Err(e) = outcome {
                self.first_error = Some(e);
            }
        }
        if self.readers_left == 0 {
            self.closed = true;
            Step::CloseChannel
        } else {
            Step::Wait
        }
    }

    /// Reports that a sink writer ended, with its outcome. Writers are joined
    /// only once the channel is closed.
    pub fn writer_joined(&mut self, outcome: Result<(), MyError>) -> (s: Step)
        requires
            old(self).wf(),
            old(self).closed,
            !old(self).finished,
            old(self).writers_left > 0,
        ensures
            final(self).wf(),
            final(self).n_sources == old(self).n_sources,
            final(self).n_sinks == old(self).n_sinks,
            final(self).closed,
            final(self).writers_left == old(self).writers_left - 1,
            final(self).first_error == keep_first(old(self).first_error, outcome),
            final(self).writers_left == 0 ==> s == Step::Finish(outcome_of(final(self).first_error)) && final(self).finished,
            final(self).writers_left > 0 ==> s == Step::Wait && !final(self).finished,
    {
        self.writers_left = self.writers_left - 1;
        if self.first_error.is_none() {
            if let Err(e) = outcome {
                self.first_error = Some(e);
            }
        }
        if self.writers_left == 0 {
            self.finished = true;
            Step::Finish(self.outcome())
        } else {
            Step::Wait
        }
    }

    /// The run's outcome so far: the first error reported, if any.
    pub fn outcome(&self) -> (r: Result<(), MyError>)
        ensures
            r == outcome_of(self.first_error),
    {
        match self.first_error {
            Some(e) => Err(e),
            None => Ok(()),
        }
    }
}

} // verus!
