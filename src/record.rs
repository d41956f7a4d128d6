use vstd::prelude::*;

verus! {

/// las's point, which records carry through without reading it.
#[verifier::external_type_specification]
#[verifier::external_body]
pub struct ExPoint(las::Point);

/// Relies on the `Clone` that las derives for `Point`: every field is copied,
/// so the copy is the same value.
pub assume_specification[ <las::Point as Clone>::clone ](p: &las::Point) -> (r: las::Point)
    ensures
        r == *p,
;

/// One point record.
///
/// The coordinates are the raw integers of the record's file (before scale and
/// offset), which is what predicates read. The auxiliary attribute block is held
/// here, apart from the rest of the point, which the library carries unread.
pub struct Record {
    pub x: i32,
    pub y: i32,
    pub z: i32,
    pub extra_bytes: Vec<u8>,
    pub point: las::Point,
}

/// A record as a value.
pub ghost struct RecordView {
    pub x: i32,
    pub y: i32,
    pub z: i32,
    pub extra_bytes: Seq<u8>,
    pub point: las::Point,
}

impl View for Record {
    type V = RecordView;

    open spec fn view(&self) -> RecordView {
        RecordView {
            x: self.x,
            y: self.y,
            z: self.z,
            extra_bytes: self.extra_bytes@,
            point: self.point,
        }
    }
}

/// The records of a sequence, as values.
pub open spec fn records_view(s: Seq<Record>) -> Seq<RecordView> {
    s.map_values(|r: Record| r@)
}

/// A record with its auxiliary attribute block emptied and all else kept.
pub open spec fn stripped(r: RecordView) -> RecordView {
    RecordView { extra_bytes: Seq::empty(), ..r }
}

impl Record {
    pub fn new(x: i32, y: i32, z: i32, extra_bytes: Vec<u8>, point: las::Point) -> (r: Record)
        ensures
            r.x == x,
            r.y == y,
            r.z == z,
            r.extra_bytes@ == extra_bytes@,
            r.point == point,
    {
        Record { x, y, z, extra_bytes, point }
    }

    /// A copy of the record, equal to it as a value.
    pub fn duplicate(&self) -> (r: Record)
        ensures
            r@ == self@,
    {
        let mut bytes: Vec<u8> = Vec::with_capacity(self.extra_bytes.len());
        let mut i: usize = 0;
        while i < self.extra_bytes.len()
            invariant
                i <= self.extra_bytes.len(),
                bytes@ == self.extra_bytes@.subrange(0, i as int),
            decreases self.extra_bytes.len() - i,
        {
            bytes.push(self.extra_bytes[i]);
            i = i + 1;
            assert(bytes@ =~= self.extra_bytes@.subrange(0, i as int));
        }
        assert(bytes@ =~= self.extra_bytes@);
        Record { x: self.x, y: self.y, z: self.z, extra_bytes: bytes, point: self.point.clone() }
    }

    /// Empties the auxiliary attribute block, keeping the coordinates and the rest of the point.
    pub fn strip_extra_bytes(&mut self)
        ensures
            final(self)@ == stripped(old(self)@),
    {
        self.extra_bytes.clear();
        assert(self.extra_bytes@ =~= Seq::<u8>::empty());
    }
}

} // verus!
