use vstd::prelude::*;

use crate::predicate::{duplicate_predicates, selected, Predicate};
use crate::record::{records_view, Record, RecordView};
use crate::routing::{lemma_sent_to_push, sent_to, Batch, ReadWorker};
use crate::sink::{delivered, prepare_batch};

verus! {

/// The sources of a run, as values.
pub open spec fn sources_view(sources: Seq<Vec<Record>>) -> Seq<Seq<RecordView>> {
    sources.map_values(|v: Vec<Record>| records_view(v@))
}

/// What the sink paired with predicate `p` holds after a run over `sources`
/// taken one after another: the records each source holds that `p` accepts,
/// in their order, stripped when `strip` is set.
pub open spec fn sink_contents(sources: Seq<Seq<RecordView>>, p: Predicate, strip: bool) -> Seq<RecordView>
    decreases sources.len(),
{
    if sources.len() == 0 {
        Seq::empty()
    } else {
        sink_contents(sources.drop_last(), p, strip) + delivered(selected(sources.last(), p), strip)
    }
}

pub proof fn lemma_delivered_concat(a: Seq<RecordView>, b: Seq<RecordView>, strip: bool)
    ensures
        delivered(a + b, strip) == delivered(a, strip) + delivered(b, strip),
{
    assert(delivered(a + b, strip) =~= delivered(a, strip) + delivered(b, strip));
}

pub proof fn lemma_records_view_concat(a: Seq<Record>, b: Seq<Record>)
    ensures
        records_view(a + b) == records_view(a) + records_view(b),
{
    assert(records_view(a + b) =~= records_view(a) + records_view(b));
}

/// Appends the routed messages to their sinks, in message order.
pub fn deliver(sinks: &mut Vec<Vec<Record>>, msgs: Vec<Batch>, strip: bool)
    requires
        forall|k: int| 0 <= k < msgs.len() ==> (#[trigger] msgs[k]).sink < old(sinks).len(),
    ensures
        final(sinks).len() == old(sinks).len(),
        forall|i: int| 0 <= i < old(sinks).len() ==> records_view(#[trigger] final(sinks)[i]@)
            == records_view(old(sinks)[i]@) + delivered(sent_to(msgs@, i), strip),
{
    let ghost orig = msgs@;
    let mut msgs = msgs;
    let ghost mut done: int = 0;
    while msgs.len() > 0
        invariant
            0 <= done <= orig.len(),
            msgs@ == orig.subrange(done, orig.len() as int),
            sinks.len() == old(sinks).len(),
            forall|k: int| 0 <= k < orig.len() ==> (#[trigger] orig[k]).sink < sinks.len(),
            forall|i: int| 0 <= i < sinks.len() ==> records_view(#[trigger] sinks[i]@)
                == records_view(old(sinks)[i]@) + delivered(sent_to(orig.subrange(0, done), i), strip),
        decreases msgs.len(),
    {
        let b = msgs.remove(0);
        let ghost sinks0 = sinks@;
        assert(b == orig[done]);
        let sink = b.sink;
        let mut prepared = prepare_batch(b.records, strip);
        let ghost prep = prepared@;
        sinks[sink].append(&mut prepared);
        proof {
            assert(orig.subrange(0, done + 1) =~= orig.subrange(0, done).push(b));
            assert forall|i: int| 0 <= i < sinks.len() implies records_view(#[trigger] sinks[i]@)
                == records_view(old(sinks)[i]@) + delivered(sent_to(orig.subrange(0, done + 1), i), strip) by {
                lemma_sent_to_push(orig.subrange(0, done), b, i);
                if i == sink {
                    lemma_records_view_concat(sinks0[i]@, prep);
                    lemma_delivered_concat(sent_to(orig.subrange(0, done), i), records_view(b.records@), strip);
                    let base = records_view(old(sinks)[i]@);
                    let d0 = delivered(sent_to(orig.subrange(0, done), i), strip);
                    let d1 = delivered(records_view(b.records@), strip);
                    assert(base + d0 + d1 =~= base + (d0 + d1));
                }
            }
            done = done + 1;
        }
    }
    assert(orig.subrange(0, orig.len() as int) =~= orig);
}

/// Runs the pipeline over sources held in memory, one source after another:
/// each source goes through its own read worker, and the routed batches are
/// appended to the sinks. Returns what each sink holds.
pub fn route_sources(sources: &Vec<Vec<Record>>, predicates: &Vec<Predicate>, batch_size: usize, strip: bool) -> (r: Vec<Vec<Record>>)
    requires
        batch_size > 0,
    ensures
        r.len() == predicates.len(),
        forall|i: int| 0 <= i < predicates.len() ==> records_view(#[trigger] r[i]@)
            == sink_contents(sources_view(sources@), predicates[i], strip),
{
    let ghost sv = sources_view(sources@);
    let mut sinks: Vec<Vec<Record>> = Vec::new();
    let mut i: usize = 0;
    while i < predicates.len()
        invariant
            i <= predicates.len(),
            sinks.len() == i,
            forall|k: int| 0 <= k < i ==> (#[trigger] sinks[k])@ == Seq::<Record>::empty(),
        decreases predicates.len() - i,
    {
        sinks.push(Vec::new());
        i = i + 1;
    }
    proof {
        assert forall|k: int| 0 <= k < predicates.len() implies records_view(#[trigger] sinks[k]@)
            == sink_contents(sv.subrange(0, 0), predicates[k], strip) by {
            assert(records_view(sinks[k]@) =~= Seq::<RecordView>::empty());
        }
    }
    let mut s: usize = 0;
    while s < sources.len()
        invariant
            s <= sources.len(),
            batch_size > 0,
            sv == sources_view(sources@),
            sinks.len() == predicates.len(),
            forall|k: int| 0 <= k < predicates.len() ==> records_view(#[trigger] sinks[k]@)
                == sink_contents(sv.subrange(0, s as int), predicates[k], strip),
        decreases sources.len() - s,
    {
        let ghost sinks0 = sinks@;
        let mut worker = ReadWorker::new(duplicate_predicates(predicates), batch_size);
        let ghost w0 = worker@;
        let msgs = worker.push_chunk(&sources[s]);
        let ghost w1 = worker@;
        let rest = worker.finish();
        let ghost m = msgs@;
        let ghost rs = rest@;
        deliver(&mut sinks, msgs, strip);
        let ghost sinks1 = sinks@;
        deliver(&mut sinks, rest, strip);
        proof {
            assert(sv.subrange(0, s + 1).drop_last() =~= sv.subrange(0, s as int));
            assert(sv[s as int] == records_view(sources[s as int]@));
            assert forall|k: int| 0 <= k < predicates.len() implies records_view(#[trigger] sinks[k]@)
                == sink_contents(sv.subrange(0, s + 1), predicates[k], strip) by {
                let sel = selected(sv[s as int], predicates[k]);
                assert(w0.pending[k] == Seq::<RecordView>::empty());
                assert(sent_to(m, k) + w1.pending[k] == Seq::<RecordView>::empty() + sel);
                assert(Seq::<RecordView>::empty() + sel =~= sel);
                assert(sent_to(rs, k) == w1.pending[k]);
                lemma_delivered_concat(sent_to(m, k), sent_to(rs, k), strip);
                let base = records_view(sinks0[k]@);
                let d0 = delivered(sent_to(m, k), strip);
                let d1 = delivered(sent_to(rs, k), strip);
                assert(records_view(sinks1[k]@) == base + d0);
                assert(base + d0 + d1 =~= base + (d0 + d1));
            }
        }
        s = s + 1;
    }
    assert(sv.subrange(0, sources.len() as int) =~= sv);
    sinks
}

} // verus!
