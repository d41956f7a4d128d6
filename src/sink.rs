use vstd::prelude::*;

use crate::record::{records_view, stripped, Record, RecordView};

verus! {

/// What a sink receives for the routed records `s`: the records themselves, or,
/// when stripping is on, each record with its auxiliary attribute block emptied.
pub open spec fn delivered(s: Seq<RecordView>, strip: bool) -> Seq<RecordView> {
    if strip {
        s.map_values(|r: RecordView| stripped(r))
    } else {
        s
    }
}

/// Readies a routed batch for appending: the records in receipt order, stripped
/// when `strip` is set.
pub fn prepare_batch(records: Vec<Record>, strip: bool) -> (r: Vec<Record>)
    ensures
        records_view(r@) == delivered(records_view(records@), strip),
{
    let mut records = records;
    if strip {
        let ghost orig = records@;
        let mut i: usize = 0;
        while i < records.len()
            invariant
                i <= records.len(),
                records.len() == orig.len(),
                forall|k: int| 0 <= k < i ==> (#[trigger] records[k])@ == stripped(orig[k]@),
                forall|k: int| i <= k < records.len() ==> #[trigger] records[k] == orig[k],
            decreases records.len() - i,
        {
            records[i].strip_extra_bytes();
            i = i + 1;
        }
        assert(records_view(records@) =~= delivered(records_view(orig), strip));
    }
    records
}

} // verus!
