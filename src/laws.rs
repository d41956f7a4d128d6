use vstd::prelude::*;

use crate::error::{ConfigError, MyError};
use crate::pipeline::sink_contents;
use crate::processor::run_check;
use crate::predicate::{accepts, lemma_selected_members, selected, Predicate};
use crate::record::{stripped, RecordView};
use crate::sink::delivered;

verus! {

/// The number of records of `s` that `p` accepts.
pub open spec fn count_accepted(s: Seq<RecordView>, p: Predicate) -> nat
    decreases s.len(),
{
    if s.len() == 0 {
        0
    } else {
        count_accepted(s.drop_last(), p) + if accepts(p, s.last()) { 1nat } else { 0nat }
    }
}

/// The number of records over all of `sources` that `p` accepts.
pub open spec fn total_accepted(sources: Seq<Seq<RecordView>>, p: Predicate) -> nat
    decreases sources.len(),
{
    if sources.len() == 0 {
        0
    } else {
        total_accepted(sources.drop_last(), p) + count_accepted(sources.last(), p)
    }
}

/// Predicates read coordinates only: stripping a record does not change what they decide.
pub proof fn lemma_accepts_stripped(p: Predicate, r: RecordView)
    ensures
        accepts(p, stripped(r)) == accepts(p, r),
    decreases p,
{
    if let Predicate::Not(inner) = p {
        lemma_accepts_stripped(*inner, r);
    }
}

pub proof fn lemma_selected_len(s: Seq<RecordView>, p: Predicate)
    ensures
        selected(s, p).len() == count_accepted(s, p),
    decreases s.len(),
{
    if s.len() > 0 {
        lemma_selected_len(s.drop_last(), p);
    }
}

/// A sink holds exactly the records its predicate accepts: every record in it
/// is accepted, every accepted record of every source is in it (stripped when
/// stripping is on), and it holds as many records as were accepted over all
/// sources.
pub proof fn lemma_sink_sound_and_complete(sources: Seq<Seq<RecordView>>, p: Predicate, strip: bool)
    ensures
        forall|k: int| 0 <= k < sink_contents(sources, p, strip).len()
            ==> accepts(p, #[trigger] sink_contents(sources, p, strip)[k]),
        forall|s: int, m: int| 0 <= s < sources.len() && 0 <= m < sources[s].len() && accepts(p, sources[s][m])
            ==> sink_contents(sources, p, strip).contains(
                if strip { stripped(#[trigger] sources[s][m]) } else { sources[s][m] },
            ),
        sink_contents(sources, p, strip).len() == total_accepted(sources, p),
    decreases sources.len(),
{
    if sources.len() > 0 {
        let prev = sources.drop_last();
        let last = sources.last();
        lemma_sink_sound_and_complete(prev, p, strip);
        lemma_selected_members(last, p);
        lemma_selected_len(last, p);
        let sel = selected(last, p);
        let head = sink_contents(prev, p, strip);
        let tail = delivered(sel, strip);
        let all = sink_contents(sources, p, strip);
        assert(all == head + tail);
        assert forall|k: int| 0 <= k < all.len() implies accepts(p, #[trigger] all[k]) by {
            if k >= head.len() {
                let j = k - head.len();
                assert(all[k] == tail[j]);
                if strip {
                    lemma_accepts_stripped(p, sel[j]);
                }
            }
        }
        assert forall|s: int, m: int| 0 <= s < sources.len() && 0 <= m < sources[s].len() && accepts(
            p,
            sources[s][m],
        ) implies all.contains(if strip { stripped(#[trigger] sources[s][m]) } else { sources[s][m] }) by {
            let want = if strip { stripped(sources[s][m]) } else { sources[s][m] };
            if s < sources.len() - 1 {
                assert(prev[s] == sources[s]);
                assert(prev[s][m] == sources[s][m]);
                let j = choose|j: int| 0 <= j < head.len() && head[j] == want;
                assert(all[j] == want);
            } else {
                assert(last[m] == sources[s][m]);
                assert(sel.contains(last[m]));
                let j = choose|j: int| 0 <= j < sel.len() && sel[j] == last[m];
                assert(tail[j] == want);
                assert(all[head.len() + j] == want);
            }
        }
    }
}

/// Over a single source, a predicate that accepts every record passes every
/// record through: the sink holds as many records as the source, and without
/// stripping it holds the source itself.
pub proof fn lemma_accept_all_round_trip(source: Seq<RecordView>, strip: bool)
    ensures
        sink_contents(seq![source], Predicate::AlwaysTrue, strip).len() == source.len(),
        sink_contents(seq![source], Predicate::AlwaysTrue, false) == source,
    decreases source.len(),
{
    let one = seq![source];
    assert(one.drop_last() =~= Seq::<Seq<RecordView>>::empty());
    assert(one.last() == source);
    lemma_selected_all(source);
    assert(sink_contents(one.drop_last(), Predicate::AlwaysTrue, strip) == Seq::<RecordView>::empty());
    assert(sink_contents(one.drop_last(), Predicate::AlwaysTrue, false) == Seq::<RecordView>::empty());
    assert(Seq::<RecordView>::empty() + source =~= source);
    assert(Seq::<RecordView>::empty() + delivered(source, strip) =~= delivered(source, strip));
}

proof fn lemma_selected_all(s: Seq<RecordView>)
    ensures
        selected(s, Predicate::AlwaysTrue) == s,
    decreases s.len(),
{
    if s.len() > 0 {
        lemma_selected_all(s.drop_last());
        assert(s.drop_last().push(s.last()) =~= s);
    }
}

proof fn lemma_count_complement(s: Seq<RecordView>, p: Predicate)
    ensures
        count_accepted(s, p) + count_accepted(s, Predicate::Not(Box::new(p))) == s.len(),
    decreases s.len(),
{
    if s.len() > 0 {
        lemma_count_complement(s.drop_last(), p);
    }
}

/// A predicate and its negation split a source into two sinks with no overlap:
/// each record is accepted by exactly one of the two, and the two sinks hold as
/// many records together as the source.
pub proof fn lemma_complement_partition(source: Seq<RecordView>, p: Predicate, strip: bool)
    ensures
        forall|m: int| 0 <= m < source.len()
            ==> accepts(p, #[trigger] source[m]) != accepts(Predicate::Not(Box::new(p)), source[m]),
        sink_contents(seq![source], p, strip).len()
            + sink_contents(seq![source], Predicate::Not(Box::new(p)), strip).len() == source.len(),
{
    let q = Predicate::Not(Box::new(p));
    lemma_sink_sound_and_complete(seq![source], p, strip);
    lemma_sink_sound_and_complete(seq![source], q, strip);
    lemma_count_complement(source, p);
    let one = seq![source];
    assert(one.drop_last() =~= Seq::<Seq<RecordView>>::empty());
    assert(total_accepted(one.drop_last(), p) == 0);
    assert(total_accepted(one.drop_last(), q) == 0);
    assert(one.last() == source);
    assert(total_accepted(one, p) == count_accepted(source, p));
    assert(total_accepted(one, q) == count_accepted(source, q));
}

/// With stripping on, every record a sink holds has an empty auxiliary
/// attribute block, and is otherwise the record that the run without stripping
/// delivers at the same place.
pub proof fn lemma_strip_keeps_core(sources: Seq<Seq<RecordView>>, p: Predicate)
    ensures
        sink_contents(sources, p, true) == sink_contents(sources, p, false).map_values(|r: RecordView| stripped(r)),
        forall|k: int| 0 <= k < sink_contents(sources, p, true).len()
            ==> (#[trigger] sink_contents(sources, p, true)[k]).extra_bytes.len() == 0,
    decreases sources.len(),
{
    if sources.len() > 0 {
        lemma_strip_keeps_core(sources.drop_last(), p);
        let a = sink_contents(sources.drop_last(), p, false);
        let b = selected(sources.last(), p);
        assert((a + b).map_values(|r: RecordView| stripped(r)) =~= a.map_values(|r: RecordView| stripped(r))
            + b.map_values(|r: RecordView| stripped(r)));
    }
}

/// A run whose number of predicates differs from its number of sinks is
/// rejected as a configuration error, whatever its sources, paths and batch
/// size; the check opens nothing.
pub proof fn lemma_mismatch_rejected(n_sources: nat, outputs: Seq<Seq<char>>, n_predicates: nat, batch_size: nat)
    requires
        n_predicates != outputs.len(),
    ensures
        run_check(n_sources, outputs, n_predicates, batch_size) == Err::<(), MyError>(MyError::Configuration(
            ConfigError::MismatchedFiltersAndOutputs { predicates: n_predicates as usize, sinks: outputs.len() as usize },
        )),
{
}

} // verus!
