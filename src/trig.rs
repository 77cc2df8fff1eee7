//! The sine/cosine table for the 360 integer degrees, in fixed point.

use vstd::prelude::*;

verus! {

/// Fixed-point unit of the table: a stored value `v` stands for `v / TRIG_ONE`.
pub const TRIG_ONE: i32 = 65536;

/// Number of entries: one per integer degree.
pub const DEGREES: usize = 360;

/// Whether `(cos, sin)` can form a table: one entry per degree, each within
/// `[-1, 1]`, and the quarter turns exact (where a sine or cosine is 0 or 1).
pub open spec fn valid_entries(cos: Seq<i32>, sin: Seq<i32>) -> bool {
    &&& cos.len() == DEGREES
    &&& sin.len() == DEGREES
    &&& forall|d: int| 0 <= d < DEGREES ==> -TRIG_ONE <= #[trigger] cos[d] <= TRIG_ONE
    &&& forall|d: int| 0 <= d < DEGREES ==> -TRIG_ONE <= #[trigger] sin[d] <= TRIG_ONE
    &&& cos[0] == TRIG_ONE && sin[0] == 0
    &&& cos[90] == 0 && sin[90] == TRIG_ONE
    &&& cos[180] == -TRIG_ONE && sin[180] == 0
    &&& cos[270] == 0 && sin[270] == -TRIG_ONE
}

/// Cosine and sine of each integer degree, scaled by [`TRIG_ONE`].
/// Immutable once built.
pub struct TrigTable {
    cos: Vec<i32>,
    sin: Vec<i32>,
}

impl TrigTable {
    /// The scaled cosine of degree `d`.
    pub closed spec fn cos_at(&self, d: int) -> int {
        self.cos@[d] as int
    }

    /// The scaled sine of degree `d`.
    pub closed spec fn sin_at(&self, d: int) -> int {
        self.sin@[d] as int
    }

    /// The table's invariant.
    pub closed spec fn wf(&self) -> bool {
        valid_entries(self.cos@, self.sin@)
    }

    /// What a well-formed table guarantees of its entries.
    pub proof fn lemma_entries(&self)
        requires
            self.wf(),
        ensures
            forall|d: int| 0 <= d < DEGREES ==> -TRIG_ONE <= #[trigger] self.cos_at(d) <= TRIG_ONE,
            forall|d: int| 0 <= d < DEGREES ==> -TRIG_ONE <= #[trigger] self.sin_at(d) <= TRIG_ONE,
            self.cos_at(0) == TRIG_ONE && self.sin_at(0) == 0,
            self.cos_at(90) == 0 && self.sin_at(90) == TRIG_ONE,
            self.cos_at(180) == -TRIG_ONE && self.sin_at(180) == 0,
            self.cos_at(270) == 0 && self.sin_at(270) == -TRIG_ONE,
    {
        assert forall|d: int| 0 <= d < DEGREES implies -TRIG_ONE <= #[trigger] self.cos_at(d) <= TRIG_ONE by {
            assert(-TRIG_ONE <= self.cos@[d] <= TRIG_ONE);
        }
        assert forall|d: int| 0 <= d < DEGREES implies -TRIG_ONE <= #[trigger] self.sin_at(d) <= TRIG_ONE by {
            assert(-TRIG_ONE <= self.sin@[d] <= TRIG_ONE);
        }
    }

    /// Builds a table from scaled cosines and sines, indexed by degree.
    /// Refuses entries that cannot be a table (see [`valid_entries`]).
    pub fn from_scaled(cos: Vec<i32>, sin: Vec<i32>) -> (r: Option<TrigTable>)
        ensures
            r is Some <==> valid_entries(cos@, sin@),
            r matches Some(t) ==> t.wf() && forall|d: int| 0 <= d < DEGREES ==>
                #[trigger] t.cos_at(d) == cos@[d] && t.sin_at(d) == sin@[d],
    {
        if cos.len() != DEGREES || sin.len() != DEGREES {
            return None;
        }
        let mut i: usize = 0;
        while i < DEGREES
            invariant
                cos@.len() == DEGREES,
                sin@.len() == DEGREES,
                i <= DEGREES,
                forall|d: int| 0 <= d < i ==> -TRIG_ONE <= #[trigger] cos@[d] <= TRIG_ONE,
                forall|d: int| 0 <= d < i ==> -TRIG_ONE <= #[trigger] sin@[d] <= TRIG_ONE,
            decreases DEGREES - i,
        {
            if cos[i] < -TRIG_ONE || cos[i] > TRIG_ONE || sin[i] < -TRIG_ONE || sin[i] > TRIG_ONE {
                return None;
            }
            i = i + 1;
        }
        if cos[0] != TRIG_ONE || sin[0] != 0 || cos[90] != 0 || sin[90] != TRIG_ONE
            || cos[180] != -TRIG_ONE || sin[180] != 0 || cos[270] != 0 || sin[270] != -TRIG_ONE {
            return None;
        }
        Some(TrigTable { cos, sin })
    }

    /// The scaled `(cos, sin)` of degree `d`.
    pub fn lookup(&self, d: i32) -> (r: (i32, i32))
        requires
            self.wf(),
            0 <= d < DEGREES,
        ensures
            r.0 == self.cos_at(d as int),
            r.1 == self.sin_at(d as int),
            -TRIG_ONE <= r.0 <= TRIG_ONE,
            -TRIG_ONE <= r.1 <= TRIG_ONE,
    {
        (self.cos[d as usize], self.sin[d as usize])
    }
}

} // verus!
