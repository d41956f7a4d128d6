use vstd::prelude::*;

use crate::config::{config_result, paths_view, validate_config};
use crate::error::MyError;
use crate::pipeline::{route_sources, sink_contents, sources_view};
use crate::predicate::{duplicate_predicates, selected, Predicate};
use crate::progress::{sat_add, ProgressCounters, Snapshot};
use crate::record::{records_view, Record};
use crate::routing::ReadWorker;

verus! {

/// The number of records a worker batches per sink before sending, unless set otherwise.
pub const DEFAULT_BATCH_SIZE: usize = 100000;

/// The configuration of one run: sources, sinks with their predicates, the
/// strip option and the batch size.
pub struct LasProcessor {
    /// Paths of the sources.
    pub paths: Vec<String>,
    /// Paths of the sinks; the sink at index `i` receives what `conditions[i]` accepts.
    pub output_paths: Vec<String>,
    pub conditions: Vec<Predicate>,
    /// Records per batch, and per pull from a source.
    pub vec_size: usize,
    pub strip_extra_bytes: bool,
}

/// The outcome of checking a configuration, as the run reports it.
pub open spec fn run_check(n_sources: nat, outputs: Seq<Seq<char>>, n_predicates: nat, batch_size: nat) -> Result<(), MyError> {
    match config_result(n_sources, outputs, n_predicates, batch_size) {
        Ok(()) => Ok(()),
        Err(e) => Err(MyError::Configuration(e)),
    }
}

impl LasProcessor {
    pub fn new(paths: Vec<String>, output_paths: Vec<String>, conditions: Vec<Predicate>, strip_extra_bytes: bool) -> (p: LasProcessor)
        ensures
            p.paths@ == paths@,
            p.output_paths@ == output_paths@,
            p.conditions@ == conditions@,
            p.vec_size == DEFAULT_BATCH_SIZE,
            p.strip_extra_bytes == strip_extra_bytes,
    {
        LasProcessor { paths, output_paths, conditions, vec_size: DEFAULT_BATCH_SIZE, strip_extra_bytes }
    }

    /// The same configuration with another batch size.
    pub fn with_batch_size(self, vec_size: usize) -> (p: LasProcessor)
        ensures
            p.paths@ == self.paths@,
            p.output_paths@ == self.output_paths@,
            p.conditions@ == self.conditions@,
            p.vec_size == vec_size,
            p.strip_extra_bytes == self.strip_extra_bytes,
    {
        LasProcessor { vec_size, ..self }
    }

    /// Checks the configuration; nothing is opened.
    pub fn validate(&self) -> (r: Result<(), MyError>)
        ensures
            r == run_check(self.paths.len() as nat, paths_view(self.output_paths@), self.conditions.len() as nat, self.vec_size as nat),
    {
        match validate_config(self.paths.len(), &self.output_paths, self.conditions.len(), self.vec_size) {
            Ok(()) => Ok(()),
            Err(e) => Err(MyError::Configuration(e)),
        }
    }

    /// A read worker for one source of this run.
    pub fn worker(&self) -> (w: ReadWorker)
        requires
            self.vec_size > 0,
        ensures
            w.wf(),
            w@.predicates == self.conditions@,
            w@.batch_size == self.vec_size,
            w@.pending.len() == self.conditions.len(),
            forall|i: int| 0 <= i < self.conditions.len() ==> #[trigger] w@.pending[i].len() == 0,
    {
        ReadWorker::new(duplicate_predicates(&self.conditions), self.vec_size)
    }

    /// Runs the configuration over sources held in memory, in place of the
    /// sources at `paths`: checks the configuration, then routes every source.
    pub fn process_records(&self, sources: &Vec<Vec<Record>>) -> (r: Result<Vec<Vec<Record>>, MyError>)
        ensures
            run_check(sources.len() as nat, paths_view(self.output_paths@), self.conditions.len() as nat, self.vec_size as nat) matches Err(e)
                ==> r == Err::<Vec<Vec<Record>>, MyError>(e),
            run_check(sources.len() as nat, paths_view(self.output_paths@), self.conditions.len() as nat, self.vec_size as nat) is Ok
                ==> (r matches Ok(sinks) && sinks.len() == self.conditions.len() && forall|i: int| 0 <= i < sinks.len()
                    ==> records_view(#[trigger] sinks[i]@) == sink_contents(sources_view(sources@), self.conditions[i], self.strip_extra_bytes)),
    {
        match validate_config(sources.len(), &self.output_paths, self.conditions.len(), self.vec_size) {
            Err(e) => Err(MyError::Configuration(e)),
            Ok(()) => Ok(route_sources(sources, &self.conditions, self.vec_size, self.strip_extra_bytes)),
        }
    }
}

/// Filters one chunk pulled from a source: counts the chunk as read and the
/// records that `condition` accepts as to be written, and returns those, in order.
pub fn process_points(chunk: &Vec<Record>, condition: &Predicate, counters: &mut ProgressCounters) -> (r: Vec<Record>)
    ensures
        records_view(r@) == selected(records_view(chunk@), *condition),
        final(counters)@ == (Snapshot {
            read: sat_add(old(counters)@.read, chunk.len() as u64),
            to_write: sat_add(old(counters)@.to_write, r.len() as u64),
            ..old(counters)@
        }),
        final(counters).sinks() == old(counters).sinks(),
{
    let mut kept: Vec<Record> = Vec::new();
    let ghost rv = records_view(chunk@);
    let mut j: usize = 0;
    while j < chunk.len()
        invariant
            j <= chunk.len(),
            rv == records_view(chunk@),
            records_view(kept@) == selected(rv.subrange(0, j as int), *condition),
        decreases chunk.len() - j,
    {
        proof {
            assert(rv.subrange(0, j + 1) =~= rv.subrange(0, j as int).push(chunk[j as int]@));
            crate::predicate::lemma_selected_push(rv.subrange(0, j as int), *condition, chunk[j as int]@);
        }
        if condition.evaluate(&chunk[j]) {
            let copy = chunk[j].duplicate();
            let ghost before = kept@;
            kept.push(copy);
            assert(records_view(kept@) =~= records_view(before).push(copy@));
        }
        j = j + 1;
    }
    assert(rv.subrange(0, chunk.len() as int) =~= rv);
    counters.add_read(chunk.len() as u64);
    counters.add_to_write(kept.len() as u64);
    kept
}

} // verus!
