//! Initializer data segments of a memory.

use vstd::prelude::*;
use crate::ids::{GlobalId, InitExpr, Value};

verus! {

/// What a `MemoryData` holds: the absolute segments and the global-relative
/// segments, each in insertion order.
pub struct DataModel {
    pub absolute: Seq<(u32, Seq<u8>)>,
    pub relative: Seq<(GlobalId, Seq<u8>)>,
}

/// The offset expression of an absolute segment at `pos`: the 32 bits of
/// `pos` read as a signed constant.
pub open spec fn absolute_expr(pos: u32) -> InitExpr {
    InitExpr::Value(Value::I32(pos as i32))
}

/// The segments in emission order: every absolute segment, then every
/// relative one, each group in insertion order.
pub open spec fn segments(d: DataModel) -> Seq<(InitExpr, Seq<u8>)> {
    d.absolute.map_values(|s: (u32, Seq<u8>)| (absolute_expr(s.0), s.1))
        + d.relative.map_values(|s: (GlobalId, Seq<u8>)| (InitExpr::Global(s.0), s.1))
}

/// The initialization data of a memory.
pub struct MemoryData {
    pub(crate) absolute: Vec<(u32, Vec<u8>)>,
    pub(crate) relative: Vec<(GlobalId, Vec<u8>)>,
}

impl View for MemoryData {
    type V = DataModel;

    closed spec fn view(&self) -> DataModel {
        DataModel {
            absolute: self.absolute@.map_values(|s: (u32, Vec<u8>)| (s.0, s.1@)),
            relative: self.relative@.map_values(|s: (GlobalId, Vec<u8>)| (s.0, s.1@)),
        }
    }
}

impl Default for MemoryData {
    fn default() -> (r: MemoryData)
        ensures
            r@.absolute.len() == 0,
            r@.relative.len() == 0,
    {
        MemoryData { absolute: Vec::new(), relative: Vec::new() }
    }
}

impl MemoryData {
    /// Data with no segments.
    pub fn new() -> (r: MemoryData)
        ensures
            r@.absolute.len() == 0,
            r@.relative.len() == 0,
    {
        MemoryData { absolute: Vec::new(), relative: Vec::new() }
    }

    /// Appends a segment placed at the fixed offset `pos`.
    pub fn add_absolute(&mut self, pos: u32, data: Vec<u8>)
        ensures
            final(self)@.absolute == old(self)@.absolute.push((pos, data@)),
            final(self)@.relative == old(self)@.relative,
    {
        self.absolute.push((pos, data));
        proof {
            assert(self@.absolute =~= old(self)@.absolute.push((pos, data@)));
        }
    }

    /// Appends a segment placed at the run-time value of the global `id`.
    pub fn add_relative(&mut self, id: GlobalId, data: Vec<u8>)
        ensures
            final(self)@.relative == old(self)@.relative.push((id, data@)),
            final(self)@.absolute == old(self)@.absolute,
    {
        self.relative.push((id, data));
        proof {
            assert(self@.relative =~= old(self)@.relative.push((id, data@)));
        }
    }

    /// The globals that the relative segments are placed at, one per segment
    /// and in their order, repeats included.
    pub fn globals(&self) -> (r: Vec<GlobalId>)
        ensures
            r@ == self@.relative.map_values(|s: (GlobalId, Seq<u8>)| s.0),
    {
        let mut r: Vec<GlobalId> = Vec::new();
        let mut i: usize = 0;
        while i < self.relative.len()
            invariant
                i <= self.relative@.len(),
                r@ == self@.relative.take(i as int).map_values(|s: (GlobalId, Seq<u8>)| s.0),
            decreases self.relative@.len() - i,
        {
            r.push(self.relative[i].0);
            i += 1;
            proof {
                assert(r@ =~= self@.relative.take(i as int).map_values(
                    |s: (GlobalId, Seq<u8>)| s.0,
                ));
            }
        }
        proof {
            assert(self@.relative.take(i as int) =~= self@.relative);
        }
        r
    }

    /// Whether there is no segment of either kind.
    pub fn is_empty(&self) -> (r: bool)
        ensures
            r == (self@.absolute.len() == 0 && self@.relative.len() == 0),
    {
        self.absolute.len() == 0 && self.relative.len() == 0
    }

    /// The segments in emission order (see `segments`), borrowing the bytes.
    pub fn iter(&self) -> (r: Vec<(InitExpr, &[u8])>)
        ensures
            r@.len() == segments(self@).len(),
            forall|i: int|
                0 <= i < r@.len() ==> (#[trigger] r@[i]).0 == segments(self@)[i].0 && r@[i].1@
                    == segments(self@)[i].1,
    {
        let mut r: Vec<(InitExpr, &[u8])> = Vec::new();
        let mut i: usize = 0;
        let ghost segs = segments(self@);
        let ghost na = self.absolute@.len();
        while i < self.absolute.len()
            invariant
                i <= na,
                na == self.absolute@.len(),
                segs == segments(self@),
                r@.len() == i,
                forall|k: int|
                    0 <= k < i ==> (#[trigger] r@[k]).0 == segs[k].0 && r@[k].1@ == segs[k].1,
            decreases na - i,
        {
            let seg = &self.absolute[i];
            r.push((InitExpr::Value(Value::I32(#[verifier::truncate] (seg.0 as i32))), seg.1.as_slice()));
            i += 1;
        }
        let mut j: usize = 0;
        while j < self.relative.len()
            invariant
                j <= self.relative@.len(),
                na == self.absolute@.len(),
                segs == segments(self@),
                r@.len() == na + j,
                forall|k: int|
                    0 <= k < na + j ==> (#[trigger] r@[k]).0 == segs[k].0 && r@[k].1@ == segs[k].1,
            decreases self.relative@.len() - j,
        {
            let seg = &self.relative[j];
            r.push((InitExpr::Global(seg.0), seg.1.as_slice()));
            j += 1;
        }
        r
    }

    /// Consumes the data for its segments in emission order (see
    /// `segments`).
    pub fn into_iter(self) -> (r: Vec<(InitExpr, Vec<u8>)>)
        ensures
            r@.len() == segments(self@).len(),
            forall|i: int|
                0 <= i < r@.len() ==> (#[trigger] r@[i]).0 == segments(self@)[i].0 && r@[i].1@
                    == segments(self@)[i].1,
    {
        let ghost segs = segments(self@);
        let ghost na = self.absolute@.len();
        let ghost total = segs.len();
        let ghost abs0 = self.absolute@;
        let ghost rel0 = self.relative@;
        proof {
            assert forall|j: int| 0 <= j < na implies #[trigger] segs[j] == (absolute_expr(abs0[j].0), abs0[j].1@) by {}
            assert forall|j: int| 0 <= j < rel0.len() implies #[trigger] segs[na + j] == (InitExpr::Global(rel0[j].0), rel0[j].1@) by {}
        }
        let MemoryData { mut absolute, mut relative } = self;
        // Popping from the back fills `stack` with the segments last first.
        let mut stack: Vec<(InitExpr, Vec<u8>)> = Vec::new();
        while relative.len() > 0
            invariant
                total == na + rel0.len(),
                total == segs.len(),
                na == abs0.len(),
                absolute@ == abs0,
                forall|j: int| 0 <= j < rel0.len() ==> #[trigger] segs[na + j] == (InitExpr::Global(rel0[j].0), rel0[j].1@),
                relative@ == rel0.take(relative@.len() as int),
                stack@.len() + relative@.len() == rel0.len(),
                forall|m: int|
                    0 <= m < stack@.len() ==> (#[trigger] stack@[m]).0 == segs[total - 1 - m].0
                        && stack@[m].1@ == segs[total - 1 - m].1,
            decreases relative@.len(),
        {
            let ghost len = relative@.len();
            let (id, data) = relative.pop().unwrap();
            proof {
                assert(relative@ =~= rel0.take(relative@.len() as int));
                assert(rel0.take(len as int)[len - 1] == rel0[len - 1]);
                assert(segs[total - 1 - stack@.len()] == segs[na + (len - 1)]);
            }
            stack.push((InitExpr::Global(id), data));
        }
        while absolute.len() > 0
            invariant
                total == na + rel0.len(),
                total == segs.len(),
                na == abs0.len(),
                forall|j: int| 0 <= j < na ==> #[trigger] segs[j] == (absolute_expr(abs0[j].0), abs0[j].1@),
                absolute@.len() <= na,
                absolute@ == abs0.take(absolute@.len() as int),
                stack@.len() + absolute@.len() == total,
                forall|m: int|
                    0 <= m < stack@.len() ==> (#[trigger] stack@[m]).0 == segs[total - 1 - m].0
                        && stack@[m].1@ == segs[total - 1 - m].1,
            decreases absolute@.len(),
        {
            let ghost len = absolute@.len();
            let (pos, data) = absolute.pop().unwrap();
            proof {
                assert(absolute@ =~= abs0.take(len - 1));
                assert(abs0.take(len as int)[len - 1] == abs0[len - 1]);
                assert(segs[total - 1 - stack@.len()] == segs[len - 1]);
            }
            stack.push((InitExpr::Value(Value::I32(#[verifier::truncate] (pos as i32))), data));
        }
        let mut r: Vec<(InitExpr, Vec<u8>)> = Vec::new();
        let ghost full = stack@;
        while stack.len() > 0
            invariant
                full.len() == total,
                total == segs.len(),
                stack@ == full.take(stack@.len() as int),
                r@.len() + stack@.len() == total,
                forall|m: int|
                    0 <= m < total ==> (#[trigger] full[m]).0 == segs[total - 1 - m].0
                        && full[m].1@ == segs[total - 1 - m].1,
                forall|k: int|
                    0 <= k < r@.len() ==> (#[trigger] r@[k]).0 == segs[k].0 && r@[k].1@ == segs[k].1,
            decreases stack@.len(),
        {
            let seg = stack.pop().unwrap();
            proof {
                assert(stack@ =~= full.take(stack@.len() as int));
            }
            r.push(seg);
        }
        r
    }
}

} // verus!
