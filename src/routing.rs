use vstd::prelude::*;

use crate::predicate::{accepts, lemma_selected_push, selected, Predicate};
use crate::record::{records_view, Record, RecordView};

verus! {

/// One routing message: records addressed to the sink at index `sink`.
pub struct Batch {
    pub sink: usize,
    pub records: Vec<Record>,
}

/// The records that the messages of `msgs` carry to sink `i`, in message order.
pub open spec fn sent_to(msgs: Seq<Batch>, i: int) -> Seq<RecordView>
    decreases msgs.len(),
{
    if msgs.len() == 0 {
        Seq::empty()
    } else {
        let prev = sent_to(msgs.drop_last(), i);
        if msgs.last().sink == i {
            prev + records_view(msgs.last().records@)
        } else {
            prev
        }
    }
}

pub proof fn lemma_sent_to_push(msgs: Seq<Batch>, b: Batch, i: int)
    ensures
        sent_to(msgs.push(b), i) == if b.sink == i {
            sent_to(msgs, i) + records_view(b.records@)
        } else {
            sent_to(msgs, i)
        },
{
    assert(msgs.push(b).drop_last() =~= msgs);
}

pub proof fn lemma_sent_to_concat(a: Seq<Batch>, b: Seq<Batch>, i: int)
    ensures
        sent_to(a + b, i) == sent_to(a, i) + sent_to(b, i),
    decreases b.len(),
{
    if b.len() == 0 {
        assert(a + b =~= a);
        assert(sent_to(a, i) + sent_to(b, i) =~= sent_to(a, i));
    } else {
        assert((a + b).drop_last() =~= a + b.drop_last());
        lemma_sent_to_concat(a, b.drop_last(), i);
        if b.last().sink == i {
            let rv = records_view(b.last().records@);
            assert(sent_to(a, i) + sent_to(b.drop_last(), i) + rv =~= sent_to(a, i) + (sent_to(b.drop_last(), i) + rv));
        }
    }
}

/// Selecting from two sequences one after the other selects from their concatenation.
pub proof fn lemma_selected_concat(a: Seq<RecordView>, b: Seq<RecordView>, p: Predicate)
    ensures
        selected(a + b, p) == selected(a, p) + selected(b, p),
    decreases b.len(),
{
    if b.len() == 0 {
        assert(a + b =~= a);
        assert(selected(a, p) + selected(b, p) =~= selected(a, p));
    } else {
        assert((a + b).drop_last() =~= a + b.drop_last());
        lemma_selected_concat(a, b.drop_last(), p);
        let x = b.last();
        if accepts(p, x) {
            assert((selected(a, p) + selected(b.drop_last(), p)).push(x) =~= selected(a, p) + selected(b.drop_last(), p).push(x));
        }
    }
}

/// Chunk boundaries do not matter: if a worker routes chunk `c1` (going from
/// pending records `held0` to `held1` and sending `m1`) and then chunk `c2` (going to
/// `held2` and sending `m2`), what it sent and holds for a sink is what routing
/// `c1 + c2` at once accounts for.
pub proof fn lemma_chunks_compose(
    m1: Seq<Batch>,
    m2: Seq<Batch>,
    held0: Seq<RecordView>,
    held1: Seq<RecordView>,
    held2: Seq<RecordView>,
    c1: Seq<RecordView>,
    c2: Seq<RecordView>,
    pred: Predicate,
    i: int,
)
    requires
        sent_to(m1, i) + held1 == held0 + selected(c1, pred),
        sent_to(m2, i) + held2 == held1 + selected(c2, pred),
    ensures
        sent_to(m1 + m2, i) + held2 == held0 + selected(c1 + c2, pred),
{
    lemma_sent_to_concat(m1, m2, i);
    lemma_selected_concat(c1, c2, pred);
    let s1 = sent_to(m1, i);
    let s2 = sent_to(m2, i);
    assert(s1 + s2 + held2 =~= s1 + (s2 + held2));
    assert(s1 + (held1 + selected(c2, pred)) =~= (s1 + held1) + selected(c2, pred));
    assert(held0 + selected(c1, pred) + selected(c2, pred) =~= held0 + (selected(c1, pred) + selected(c2, pred)));
}

/// A read worker's state, as values.
pub ghost struct WorkerView {
    pub predicates: Seq<Predicate>,
    /// The records accepted for each sink and not sent yet.
    pub pending: Seq<Seq<RecordView>>,
    pub batch_size: nat,
}

/// The routing state of one read worker: a pending batch for each sink.
///
/// Every record handed to the worker is tested against every predicate, and a
/// record that several predicates accept goes to each of their sinks. A pending
/// batch that reaches the batch size leaves as one message.
pub struct ReadWorker {
    predicates: Vec<Predicate>,
    pending: Vec<Vec<Record>>,
    batch_size: usize,
}

impl View for ReadWorker {
    type V = WorkerView;

    closed spec fn view(&self) -> WorkerView {
        WorkerView {
            predicates: self.predicates@,
            pending: self.pending@.map_values(|v: Vec<Record>| records_view(v@)),
            batch_size: self.batch_size as nat,
        }
    }
}

impl ReadWorker {
    pub closed spec fn wf(&self) -> bool {
        &&& self.pending.len() == self.predicates.len()
        &&& self.batch_size > 0
        &&& forall|i: int| 0 <= i < self.pending.len() ==> #[trigger] self.pending[i].len() < self.batch_size
    }

    /// A worker with nothing pending.
    pub fn new(predicates: Vec<Predicate>, batch_size: usize) -> (w: ReadWorker)
        requires
            batch_size > 0,
        ensures
            w.wf(),
            w@.predicates == predicates@,
            w@.batch_size == batch_size,
            w@.pending.len() == predicates@.len(),
            forall|i: int| 0 <= i < predicates@.len() ==> #[trigger] w@.pending[i] == Seq::<RecordView>::empty(),
    {
        let mut pending: Vec<Vec<Record>> = Vec::new();
        let mut i: usize = 0;
        while i < predicates.len()
            invariant
                i <= predicates.len(),
                pending.len() == i,
                forall|k: int| 0 <= k < i ==> #[trigger] pending[k]@ == Seq::<Record>::empty(),
            decreases predicates.len() - i,
        {
            pending.push(Vec::new());
            i = i + 1;
        }
        let w = ReadWorker { predicates, pending, batch_size };
        assert forall|k: int| 0 <= k < w.predicates@.len() implies #[trigger] w@.pending[k] == Seq::<RecordView>::empty() by {
            assert(records_view(w.pending[k]@) =~= Seq::<RecordView>::empty());
        }
        w
    }

    /// The number of sinks the worker routes to.
    pub fn sinks(&self) -> (n: usize)
        ensures
            n == self@.predicates.len(),
    {
        self.predicates.len()
    }

    /// Routes a chunk of records in order. Returns the messages of the batches
    /// that became full, in the order they filled.
    pub fn push_chunk(&mut self, chunk: &Vec<Record>) -> (out: Vec<Batch>)
        requires
            old(self).wf(),
        ensures
            final(self).wf(),
            final(self)@.predicates == old(self)@.predicates,
            final(self)@.batch_size == old(self)@.batch_size,
            forall|k: int| 0 <= k < out.len() ==> (#[trigger] out[k]).sink < old(self)@.predicates.len()
                && out[k].records.len() == old(self)@.batch_size,
            forall|i: int| 0 <= i < old(self)@.predicates.len() ==>
                sent_to(out@, i) + #[trigger] final(self)@.pending[i]
                    == old(self)@.pending[i] + selected(records_view(chunk@), old(self)@.predicates[i]),
    {
        let mut out: Vec<Batch> = Vec::new();
        let ghost n = self.predicates.len() as int;
        let ghost rv = records_view(chunk@);
        let mut j: usize = 0;
        while j < chunk.len()
            invariant
                self.wf(),
                j <= chunk.len(),
                rv == records_view(chunk@),
                n == self.predicates.len(),
                self.predicates == old(self).predicates,
                self.batch_size == old(self).batch_size,
                forall|k: int| 0 <= k < out.len() ==> (#[trigger] out[k]).sink < n
                    && out[k].records.len() == self.batch_size,
                forall|i: int| 0 <= i < n ==>
                    sent_to(out@, i) + records_view(#[trigger] self.pending[i]@)
                        == records_view(old(self).pending[i]@) + selected(rv.subrange(0, j as int), self.predicates[i]),
            decreases chunk.len() - j,
        {
            let ghost out0 = out@;
            let ghost pend0 = self.pending@;
            self.route_one(&chunk[j], &mut out);
            proof {
                assert(rv.subrange(0, j + 1) =~= rv.subrange(0, j as int).push(chunk[j as int]@));
                assert forall|i: int| 0 <= i < n implies sent_to(out@, i) + records_view(
                    #[trigger] self.pending[i]@,
                ) == records_view(old(self).pending[i]@) + selected(rv.subrange(0, j + 1), self.predicates[i]) by {
                    lemma_selected_push(rv.subrange(0, j as int), self.predicates[i], chunk[j as int]@);
                    let base = records_view(old(self).pending[i]@);
                    let sel = selected(rv.subrange(0, j as int), self.predicates[i]);
                    assert((base + sel).push(chunk[j as int]@) =~= base + sel.push(chunk[j as int]@));
                }
            }
            j = j + 1;
        }
        proof {
            assert(rv.subrange(0, chunk.len() as int) =~= rv);
            assert forall|i: int| 0 <= i < n implies sent_to(out@, i) + #[trigger] self@.pending[i]
                == old(self)@.pending[i] + selected(rv, old(self)@.predicates[i]) by {
                assert(self@.pending[i] == records_view(self.pending[i]@));
                assert(old(self)@.pending[i] == records_view(old(self).pending[i]@));
            }
        }
        out
    }

    /// Ends the worker when its source is exhausted: every non-empty pending
    /// batch leaves as one message.
    pub fn finish(self) -> (out: Vec<Batch>)
        requires
            self.wf(),
        ensures
            forall|k: int| 0 <= k < out.len() ==> (#[trigger] out[k]).sink < self@.predicates.len()
                && 0 < out[k].records.len() < self@.batch_size,
            forall|i: int| 0 <= i < self@.predicates.len() ==> #[trigger] sent_to(out@, i) == self@.pending[i],
    {
        let ghost orig = self;
        let ReadWorker { predicates, mut pending, batch_size } = self;
        let mut out: Vec<Batch> = Vec::new();
        while pending.len() > 0
            invariant
                pending.len() <= orig.pending.len(),
                orig.wf(),
                forall|i: int| 0 <= i < pending.len() ==> #[trigger] pending[i] == orig.pending[i],
                forall|k: int| 0 <= k < out.len() ==> (#[trigger] out[k]).sink < orig.pending.len()
                    && 0 < out[k].records.len() < orig.batch_size,
                forall|i: int| 0 <= i < pending.len() ==> #[trigger] sent_to(out@, i) == Seq::<RecordView>::empty(),
                forall|i: int| pending.len() <= i < orig.pending.len() ==> #[trigger] sent_to(out@, i) == records_view(orig.pending[i]@),
            decreases pending.len(),
        {
            let ghost out0 = out@;
            let last = pending.pop().unwrap();
            let sink = pending.len();
            assert(last == orig.pending[sink as int]);
            assert(last.len() < orig.batch_size);
            if last.len() > 0 {
                let b = Batch { sink, records: last };
                proof {
                    assert forall|i: int| 0 <= i < orig.pending.len() implies #[trigger] sent_to(out0.push(b), i)
                        == if i == sink { sent_to(out0, i) + records_view(b.records@) } else { sent_to(out0, i) } by {
                        lemma_sent_to_push(out0, b, i);
                    }
                    assert(Seq::<RecordView>::empty() + records_view(b.records@) =~= records_view(b.records@));
                }
                out.push(b);
            } else {
                assert(records_view(last@) =~= Seq::<RecordView>::empty());
            }
        }
        proof {
            assert forall|i: int| 0 <= i < orig@.predicates.len() implies #[trigger] sent_to(out@, i) == orig@.pending[i] by {
                assert(orig@.pending[i] == records_view(orig.pending[i]@));
            }
        }
        out
    }

    /// Routes one record: appends it to the pending batch of every sink whose
    /// predicate accepts it, and moves each batch that became full into `out`.
    fn route_one(&mut self, r: &Record, out: &mut Vec<Batch>)
        requires
            old(self).wf(),
            forall|k: int| 0 <= k < old(out).len() ==> (#[trigger] old(out)[k]).sink < old(self).predicates.len()
                && old(out)[k].records.len() == old(self).batch_size,
        ensures
            final(self).wf(),
            final(self).predicates == old(self).predicates,
            final(self).batch_size == old(self).batch_size,
            forall|k: int| 0 <= k < final(out).len() ==> (#[trigger] final(out)[k]).sink < final(self).predicates.len()
                && final(out)[k].records.len() == final(self).batch_size,
            forall|i: int| 0 <= i < final(self).predicates.len() ==>
                sent_to(final(out)@, i) + records_view(#[trigger] final(self).pending[i]@)
                    == if accepts(final(self).predicates[i], r@) {
                        (sent_to(old(out)@, i) + records_view(old(self).pending[i]@)).push(r@)
                    } else {
                        sent_to(old(out)@, i) + records_view(old(self).pending[i]@)
                    },
    {
        let n = self.predicates.len();
        let mut i: usize = 0;
        while i < n
            invariant
                self.wf(),
                n == self.predicates.len(),
                self.predicates == old(self).predicates,
                self.batch_size == old(self).batch_size,
                i <= n,
                forall|k: int| 0 <= k < out.len() ==> (#[trigger] out[k]).sink < n
                    && out[k].records.len() == self.batch_size,
                forall|j: int| 0 <= j < i ==>
                    sent_to(out@, j) + records_view(#[trigger] self.pending[j]@)
                        == if accepts(self.predicates[j], r@) {
                            (sent_to(old(out)@, j) + records_view(old(self).pending[j]@)).push(r@)
                        } else {
                            sent_to(old(out)@, j) + records_view(old(self).pending[j]@)
                        },
                forall|j: int| i <= j < n ==> #[trigger] sent_to(out@, j) == sent_to(old(out)@, j),
                forall|j: int| i <= j < n ==> #[trigger] self.pending[j] == old(self).pending[j],
            decreases n - i,
        {
            if self.predicates[i].evaluate(r) {
                let ghost out0 = out@;
                let ghost pend0 = self.pending@;
                let copy = r.duplicate();
                assert(self.pending[i as int].len() < self.batch_size);
                self.pending[i].push(copy);
                assert(self.pending[i as int]@ == pend0[i as int]@.push(copy));
                assert(records_view(self.pending[i as int]@) =~= records_view(pend0[i as int]@).push(r@));
                if self.pending[i].len() >= self.batch_size {
                    let mut full: Vec<Record> = Vec::new();
                    core::mem::swap(&mut full, &mut self.pending[i]);
                    assert(full@ == pend0[i as int]@.push(copy));
                    let b = Batch { sink: i, records: full };
                    assert(b.records.len() == self.batch_size);
                    proof {
                        assert forall|j: int| 0 <= j < n implies sent_to(out@.push(b), j) == if j == i {
                            sent_to(out0, j) + records_view(b.records@)
                        } else {
                            sent_to(out0, j)
                        } by {
                            lemma_sent_to_push(out0, b, j);
                        }
                    }
                    out.push(b);
                    assert(records_view(self.pending[i as int]@) =~= Seq::<RecordView>::empty());
                }
                assert(sent_to(out@, i as int) + records_view(self.pending[i as int]@) =~= (sent_to(out0, i as int)
                    + records_view(pend0[i as int]@)).push(r@));
            }
            i = i + 1;
        }
    }
}

} // verus!
