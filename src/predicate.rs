use vstd::prelude::*;

use crate::record::{Record, RecordView};

verus! {

/// An axis-aligned box over raw coordinates, bounds included.
#[derive(Debug, Clone, Copy, PartialEq, Eq, Structural)]
pub struct BoundingBox {
    pub min_x: i32,
    pub max_x: i32,
    pub min_y: i32,
    pub max_y: i32,
    pub min_z: i32,
    pub max_z: i32,
}

/// A pure test on a record, chosen by name.
#[derive(Debug)]
pub enum Predicate {
    AlwaysTrue,
    AlwaysFalse,
    /// Accepts the records whose coordinates lie in the box.
    Crop(BoundingBox),
    /// Accepts exactly the records that the inner predicate rejects.
    Not(Box<Predicate>),
}

pub open spec fn in_box(b: BoundingBox, r: RecordView) -> bool {
    &&& b.min_x <= r.x <= b.max_x
    &&& b.min_y <= r.y <= b.max_y
    &&& b.min_z <= r.z <= b.max_z
}

/// Whether the predicate accepts the record.
pub open spec fn accepts(p: Predicate, r: RecordView) -> bool
    decreases p,
{
    match p {
        Predicate::AlwaysTrue => true,
        Predicate::AlwaysFalse => false,
        Predicate::Crop(b) => in_box(b, r),
        Predicate::Not(inner) => !accepts(*inner, r),
    }
}

/// The records of `s` that `p` accepts, in their order in `s`.
pub open spec fn selected(s: Seq<RecordView>, p: Predicate) -> Seq<RecordView>
    decreases s.len(),
{
    if s.len() == 0 {
        Seq::empty()
    } else {
        let prev = selected(s.drop_last(), p);
        if accepts(p, s.last()) {
            prev.push(s.last())
        } else {
            prev
        }
    }
}

impl BoundingBox {
    /// The box that holds every record whose `x` is at most `max_x`.
    pub fn x_at_most(max_x: i32) -> (b: BoundingBox)
        ensures
            forall|r: RecordView| in_box(b, r) <==> r.x <= max_x,
    {
        BoundingBox {
            min_x: i32::MIN,
            max_x,
            min_y: i32::MIN,
            max_y: i32::MAX,
            min_z: i32::MIN,
            max_z: i32::MAX,
        }
    }

    pub fn contains(&self, r: &Record) -> (res: bool)
        ensures
            res == in_box(*self, r@),
    {
        self.min_x <= r.x && r.x <= self.max_x && self.min_y <= r.y && r.y <= self.max_y
            && self.min_z <= r.z && r.z <= self.max_z
    }
}

impl Predicate {
    /// The predicate that accepts what `self` rejects.
    pub fn negate(self) -> (p: Predicate)
        ensures
            forall|r: RecordView| accepts(p, r) <==> !accepts(self, r),
    {
        Predicate::Not(Box::new(self))
    }

    /// A copy of the predicate.
    pub fn duplicate(&self) -> (p: Predicate)
        ensures
            p == *self,
        decreases self,
    {
        match self {
            Predicate::AlwaysTrue => Predicate::AlwaysTrue,
            Predicate::AlwaysFalse => Predicate::AlwaysFalse,
            Predicate::Crop(b) => Predicate::Crop(*b),
            Predicate::Not(inner) => Predicate::Not(Box::new(inner.duplicate())),
        }
    }

    /// Applies the predicate to a record.
    pub fn evaluate(&self, r: &Record) -> (res: bool)
        ensures
            res == accepts(*self, r@),
        decreases self,
    {
        match self {
            Predicate::AlwaysTrue => true,
            Predicate::AlwaysFalse => false,
            Predicate::Crop(b) => b.contains(r),
            Predicate::Not(inner) => !inner.evaluate(r),
        }
    }
}

/// Copies of a list of predicates, in order.
pub fn duplicate_predicates(ps: &Vec<Predicate>) -> (r: Vec<Predicate>)
    ensures
        r@ == ps@,
{
    let mut r: Vec<Predicate> = Vec::new();
    let mut i: usize = 0;
    while i < ps.len()
        invariant
            i <= ps.len(),
            r@ == ps@.subrange(0, i as int),
        decreases ps.len() - i,
    {
        r.push(ps[i].duplicate());
        i = i + 1;
        assert(r@ =~= ps@.subrange(0, i as int));
    }
    assert(r@ =~= ps@);
    r
}

/// The selection of a sequence extended by one record.
pub proof fn lemma_selected_push(s: Seq<RecordView>, p: Predicate, r: RecordView)
    ensures
        selected(s.push(r), p) == if accepts(p, r) {
            selected(s, p).push(r)
        } else {
            selected(s, p)
        },
{
    assert(s.push(r).drop_last() =~= s);
}

/// Every selected record is accepted, and every accepted record of `s` is selected.
pub proof fn lemma_selected_members(s: Seq<RecordView>, p: Predicate)
    ensures
        forall|k: int| 0 <= k < selected(s, p).len() ==> accepts(p, #[trigger] selected(s, p)[k]),
        forall|k: int| 0 <= k < s.len() && accepts(p, s[k]) ==> selected(s, p).contains(#[trigger] s[k]),
        selected(s, p).len() <= s.len(),
    decreases s.len(),
{
    if s.len() > 0 {
        lemma_selected_members(s.drop_last(), p);
        assert forall|k: int| 0 <= k < s.len() && accepts(p, s[k]) implies selected(s, p).contains(
            #[trigger] s[k],
        ) by {
            if k < s.len() - 1 {
                assert(s.drop_last()[k] == s[k]);
                let j = choose|j: int|
                    0 <= j < selected(s.drop_last(), p).len() && selected(s.drop_last(), p)[j]
                        == s[k];
                if accepts(p, s.last()) {
                    assert(selected(s, p)[j] == s[k]);
                }
            } else {
                assert(selected(s, p).last() == s[k]);
            }
        }
    }
}

} // verus!
