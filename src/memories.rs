//! Memories of a module: the records, the collection that owns them, and
//! the binary memory section.

use vstd::prelude::*;
use crate::arena::{
    TombstoneArena, lemma_live_indices, lemma_live_indices_shape, live_indices, refill,
};
use crate::data::{DataModel, MemoryData, segments};
use crate::encode::{Encoder, leb128};
use crate::ids::{ImportId, InitExpr, MemoryId};
use crate::indices::IndicesToIds;

verus! {

/// What a `Memory` holds.
pub struct MemoryModel {
    pub id: MemoryId,
    pub shared: bool,
    pub initial: u32,
    pub maximum: Option<u32>,
    pub import: Option<ImportId>,
    pub data: DataModel,
}

/// A linear memory of the module.
pub struct Memory {
    id: MemoryId,
    /// Whether the memory is shared.
    pub shared: bool,
    /// The initial size, in pages.
    pub initial: u32,
    /// The maximum size, in pages, if one is declared.
    pub maximum: Option<u32>,
    /// The import that provides this memory, if it is imported.
    pub import: Option<ImportId>,
    /// The segments that initialize this memory.
    pub data: MemoryData,
}

impl View for Memory {
    type V = MemoryModel;

    closed spec fn view(&self) -> MemoryModel {
        MemoryModel {
            id: self.id,
            shared: self.shared,
            initial: self.initial,
            maximum: self.maximum,
            import: self.import,
            data: self.data@,
        }
    }
}

/// The flags byte of a memory type: 0x00 without a maximum, else 0x01, or
/// 0x03 for a shared memory.
pub open spec fn memory_flags(shared: bool, maximum: Option<u32>) -> u8 {
    match maximum {
        None => 0x00,
        Some(_) => if shared {
            0x03
        } else {
            0x01
        },
    }
}

/// The encoding of a memory type: its flags byte, the initial size and, where
/// one is declared, the maximum.
pub open spec fn memory_type_bytes(shared: bool, initial: u32, maximum: Option<u32>) -> Seq<u8> {
    match maximum {
        None => seq![memory_flags(shared, maximum)] + leb128(initial as nat),
        Some(m) => seq![memory_flags(shared, maximum)] + leb128(initial as nat) + leb128(m as nat),
    }
}

impl Memory {
    /// The id of this memory.
    pub fn id(&self) -> (r: MemoryId)
        ensures
            r == self@.id,
    {
        self.id
    }

    /// The initializer segments of this memory in emission order: every
    /// absolute segment, then every relative one.
    pub fn emit_data(&self) -> (r: Vec<(InitExpr, &[u8])>)
        ensures
            r@.len() == segments(self@.data).len(),
            forall|i: int|
                0 <= i < r@.len() ==> (#[trigger] r@[i]).0 == segments(self@.data)[i].0 && r@[i].1@
                    == segments(self@.data)[i].1,
    {
        self.data.iter()
    }

    /// Releases the initializer segments of a memory that is being deleted.
    pub fn on_delete(&mut self)
        ensures
            final(self)@ == (MemoryModel {
                data: DataModel { absolute: Seq::empty(), relative: Seq::empty() },
                ..old(self)@
            }),
    {
        self.data = MemoryData::new();
        proof {
            assert(self.data@.absolute =~= Seq::empty());
            assert(self.data@.relative =~= Seq::empty());
        }
    }

    /// Appends the encoding of this memory's type.
    pub fn emit(&self, encoder: &mut Encoder)
        ensures
            final(encoder)@ == old(encoder)@ + memory_type_bytes(
                self@.shared,
                self@.initial,
                self@.maximum,
            ),
    {
        match self.maximum {
            Some(max) => {
                encoder.byte(if self.shared { 0x03 } else { 0x01 });
                encoder.u32(self.initial);
                encoder.u32(max);
            },
            None => {
                encoder.byte(0x00);
                encoder.u32(self.initial);
            },
        }
        proof {
            let t = memory_type_bytes(self@.shared, self@.initial, self@.maximum);
            assert(final(encoder)@ =~= old(encoder)@ + t);
        }
    }
}

/// The views of the slots of an arena of memories.
pub open spec fn slot_views(s: Seq<Option<Memory>>) -> Seq<Option<MemoryModel>> {
    s.map_values(|o: Option<Memory>| match o {
        Some(m) => Some(m@),
        None => None,
    })
}

/// Refilling slots and taking views commute.
proof fn lemma_refill_views(a: Seq<Option<Memory>>)
    ensures
        forall|vals: Seq<Memory>|
            vals.len() == live_indices(a).len() ==> #[trigger] slot_views(refill(a, vals)) == refill(
                slot_views(a),
                vals.map_values(|m: Memory| m@),
            ),
    decreases a.len(),
{
    if a.len() > 0 {
        let p = a.drop_last();
        lemma_refill_views(p);
        assert(slot_views(a).drop_last() =~= slot_views(p));
        assert forall|vals: Seq<Memory>|
            vals.len() == live_indices(a).len() implies #[trigger] slot_views(refill(a, vals)) == refill(
            slot_views(a),
            vals.map_values(|m: Memory| m@),
        ) by {
            let mv = vals.map_values(|m: Memory| m@);
            if a.last() is Some {
                assert(vals.drop_last().len() == live_indices(p).len());
                assert(mv.drop_last() =~= vals.drop_last().map_values(|m: Memory| m@));
                assert(slot_views(refill(a, vals)) =~= slot_views(refill(p, vals.drop_last())).push(
                    Some(vals.last()@),
                ));
            } else {
                assert(slot_views(refill(a, vals)) =~= slot_views(refill(p, vals)).push(None));
            }
        }
    } else {
        assert forall|vals: Seq<Memory>|
            vals.len() == live_indices(a).len() implies #[trigger] slot_views(refill(a, vals)) == refill(
            slot_views(a),
            vals.map_values(|m: Memory| m@),
        ) by {
            assert(slot_views(refill(a, vals)) =~= Seq::empty());
        }
    }
}

/// The live memories of `s` that are not imported, in slot order.
pub open spec fn local_memories(s: Seq<Option<MemoryModel>>) -> Seq<MemoryModel>
    decreases s.len(),
{
    if s.len() == 0 {
        Seq::empty()
    } else {
        let rest = local_memories(s.drop_last());
        match s.last() {
            Some(m) => if m.import is None {
                rest.push(m)
            } else {
                rest
            },
            None => rest,
        }
    }
}

/// There are no more local memories than slots.
pub proof fn lemma_local_memories_len(s: Seq<Option<MemoryModel>>)
    ensures
        local_memories(s).len() <= s.len(),
    decreases s.len(),
{
    if s.len() > 0 {
        lemma_local_memories_len(s.drop_last());
    }
}

/// The memory types of `ms`, encoded one after the other.
pub open spec fn memory_types_bytes(ms: Seq<MemoryModel>) -> Seq<u8>
    decreases ms.len(),
{
    if ms.len() == 0 {
        Seq::empty()
    } else {
        let m = ms.last();
        memory_types_bytes(ms.drop_last()) + memory_type_bytes(m.shared, m.initial, m.maximum)
    }
}

/// The body of the memory section for the slots `s`: the count of local
/// memories and their types, or nothing at all where there is no local memory.
pub open spec fn memory_section(s: Seq<Option<MemoryModel>>) -> Seq<u8> {
    let ms = local_memories(s);
    if ms.len() == 0 {
        Seq::empty()
    } else {
        leb128(ms.len()) + memory_types_bytes(ms)
    }
}

/// All the memories of a module, each under a stable id.
pub struct ModuleMemories {
    arena: TombstoneArena<Memory>,
}

impl View for ModuleMemories {
    type V = Seq<Option<MemoryModel>>;

    /// Slot `i` holds the memory whose id has index `i`, or `None` once that
    /// memory is deleted.
    closed spec fn view(&self) -> Seq<Option<MemoryModel>> {
        slot_views(self.arena@)
    }
}

impl ModuleMemories {
    /// Whether `id` names a memory of this collection that is not deleted.
    pub open spec fn is_live(&self, id: MemoryId) -> bool {
        id.index < self@.len() && self@[id.index as int] is Some
    }

    /// A collection with no memory.
    pub fn new() -> (r: ModuleMemories)
        ensures
            r@ == Seq::<Option<MemoryModel>>::empty(),
    {
        let r = ModuleMemories { arena: TombstoneArena::new() };
        proof {
            assert(r@ =~= Seq::<Option<MemoryModel>>::empty());
        }
        r
    }

    fn add(
        &mut self,
        shared: bool,
        initial: u32,
        maximum: Option<u32>,
        import: Option<ImportId>,
    ) -> (r: MemoryId)
        ensures
            r.index == old(self)@.len(),
            final(self)@ == old(self)@.push(
                Some(
                    MemoryModel {
                        id: r,
                        shared,
                        initial,
                        maximum,
                        import,
                        data: DataModel { absolute: Seq::empty(), relative: Seq::empty() },
                    },
                ),
            ),
    {
        let id = MemoryId { index: self.arena.next_id() };
        let data = MemoryData::new();
        proof {
            assert(data@.absolute =~= Seq::empty());
            assert(data@.relative =~= Seq::empty());
        }
        let memory = Memory { id, shared, initial, maximum, import, data };
        let index = self.arena.allocate(memory);
        proof {
            assert(self@ =~= old(self)@.push(Some(memory@)));
        }
        MemoryId { index }
    }

    /// Adds a memory that the import `import` provides, with no data.
    pub fn add_import(
        &mut self,
        shared: bool,
        initial: u32,
        maximum: Option<u32>,
        import: ImportId,
    ) -> (r: MemoryId)
        ensures
            r.index == old(self)@.len(),
            final(self)@ == old(self)@.push(
                Some(
                    MemoryModel {
                        id: r,
                        shared,
                        initial,
                        maximum,
                        import: Some(import),
                        data: DataModel { absolute: Seq::empty(), relative: Seq::empty() },
                    },
                ),
            ),
            creation_or_deletion(old(self)@, final(self)@),
    {
        let r = self.add(shared, initial, maximum, Some(import));
        proof {
            assert(creation_or_deletion(old(self)@, self@));
        }
        r
    }

    /// Adds a memory of this module's own, with no data.
    pub fn add_local(&mut self, shared: bool, initial: u32, maximum: Option<u32>) -> (r: MemoryId)
        ensures
            r.index == old(self)@.len(),
            final(self)@ == old(self)@.push(
                Some(
                    MemoryModel {
                        id: r,
                        shared,
                        initial,
                        maximum,
                        import: None,
                        data: DataModel { absolute: Seq::empty(), relative: Seq::empty() },
                    },
                ),
            ),
            creation_or_deletion(old(self)@, final(self)@),
    {
        let r = self.add(shared, initial, maximum, None);
        proof {
            assert(creation_or_deletion(old(self)@, self@));
        }
        r
    }

    /// The memory that a live `id` names.
    pub fn get(&self, id: MemoryId) -> (r: &Memory)
        requires
            self.is_live(id),
        ensures
            r@ == self@[id.index as int]->Some_0,
    {
        self.arena.get(id.index)
    }

    /// Mutable access to the memory that a live `id` names; every other slot
    /// stays as it was.
    pub fn get_mut(&mut self, id: MemoryId) -> (r: &mut Memory)
        requires
            old(self).is_live(id),
        ensures
            r@ == old(self)@[id.index as int]->Some_0,
            final(self)@ == old(self)@.update(id.index as int, Some(final(r)@)),
    {
        self.arena.get_mut(id.index)
    }

    /// Deletes the memory `id`, releasing its data. Its slot stays as a
    /// tombstone: the id is never live again nor given out again. Deleting a
    /// deleted id does nothing. References to the memory elsewhere in the
    /// module are the caller's to remove.
    pub fn delete(&mut self, id: MemoryId)
        requires
            id.index < old(self)@.len(),
        ensures
            final(self)@ == old(self)@.update(id.index as int, None),
            creation_or_deletion(old(self)@, final(self)@),
    {
        let removed = self.arena.delete(id.index);
        match removed {
            Some(mut memory) => memory.on_delete(),
            None => {},
        }
        proof {
            assert(self@ =~= old(self)@.update(id.index as int, None));
            assert(creation_or_deletion(old(self)@, self@));
        }
    }

    /// The live memories in ascending order of id.
    pub fn iter(&self) -> (r: Vec<&Memory>)
        ensures
            r@.len() == live_indices(self@).len(),
            forall|k: int|
                0 <= k < r@.len() ==> (#[trigger] r@[k])@ == self@[live_indices(self@)[k] as int]->Some_0,
    {
        let pairs = self.arena.iter();
        proof {
            lemma_live_indices_shape(self.arena@, self@);
            self.arena.lemma_len();
            lemma_live_indices(self.arena@);
        }
        let mut r: Vec<&Memory> = Vec::new();
        let mut k: usize = 0;
        while k < pairs.len()
            invariant
                k <= pairs@.len(),
                pairs@.len() == live_indices(self.arena@).len(),
                live_indices(self.arena@) == live_indices(self@),
                forall|j: int|
                    0 <= j < pairs@.len() ==> (#[trigger] pairs@[j]).0 == live_indices(self.arena@)[j]
                        && *pairs@[j].1 == self.arena.record(pairs@[j].0),
                forall|j: int|
                    0 <= j < live_indices(self.arena@).len() ==> (#[trigger] live_indices(
                        self.arena@,
                    )[j]) < self.arena@.len() && self.arena@[live_indices(self.arena@)[j] as int] is Some,
                r@.len() == k,
                forall|j: int|
                    0 <= j < k ==> (#[trigger] r@[j])@ == self@[live_indices(self@)[j] as int]->Some_0,
            decreases pairs@.len() - k,
        {
            r.push(pairs[k].1);
            k += 1;
        }
        r
    }

    /// Mutable access to each live memory, in ascending order of id.
    /// Afterwards each live slot holds what was left behind its reference;
    /// deleted ones stay deleted.
    pub fn iter_mut(&mut self) -> (r: Vec<&mut Memory>)
        ensures
            r@.len() == live_indices(old(self)@).len(),
            forall|k: int|
                0 <= k < r@.len() ==> (*#[trigger] r@[k])@ == old(self)@[live_indices(
                    old(self)@,
                )[k] as int]->Some_0,
            final(self)@ == refill(old(self)@, r@.map_values(|m: &mut Memory| final(m)@)),
    {
        proof {
            lemma_live_indices_shape(self.arena@, self@);
            lemma_refill_views(self.arena@);
            self.arena.lemma_len();
            lemma_live_indices(self.arena@);
        }
        let r = self.arena.iter_mut();
        proof {
            let fin = r@.map_values(|x: &mut Memory| *final(x));
            assert(fin.map_values(|m: Memory| m@) =~= r@.map_values(|m: &mut Memory| final(m)@));
        }
        r
    }

    /// Writes the body of the memory section: the count of memories that are
    /// not imported, then each one's type in order of id. Imported memories
    /// are declared by the import section and left out. Where no memory is
    /// left, nothing is written. Each memory written gets the next index of
    /// `indices`.
    pub fn emit(&self, encoder: &mut Encoder, indices: &mut IndicesToIds)
        ensures
            final(encoder)@ == old(encoder)@ + memory_section(self@),
            final(indices)@ == old(indices)@ + local_memories(self@).map_values(
                |m: MemoryModel| m.id,
            ),
    {
        let n = self.arena.next_id();
        proof {
            self.arena.lemma_len();
            assert(self@.len() == self.arena@.len());
        }
        let mut count: usize = 0;
        let mut i: usize = 0;
        while i < n
            invariant
                i <= n,
                n == self@.len(),
                n == self.arena@.len(),
                count == local_memories(self@.take(i as int)).len(),
            decreases n - i,
        {
            proof {
                assert(self@.take(i + 1).drop_last() == self@.take(i as int));
                assert(self@.take(i + 1).last() == self@[i as int]);
                lemma_local_memories_len(self@.take(i as int));
            }
            match self.arena.slot(i) {
                Some(memory) => {
                    if memory.import.is_none() {
                        count += 1;
                    }
                },
                None => {},
            }
            i += 1;
        }
        proof {
            assert(self@.take(n as int) == self@);
        }
        if count == 0 {
            proof {
                assert(local_memories(self@).map_values(|m: MemoryModel| m.id) =~= Seq::empty());
                assert(old(encoder)@ + memory_section(self@) =~= old(encoder)@);
                assert(old(indices)@ + Seq::<MemoryId>::empty() =~= old(indices)@);
            }
            return;
        }
        encoder.usize(count);
        let ghost start = encoder@;
        let mut i: usize = 0;
        while i < n
            invariant
                i <= n,
                n == self@.len(),
                n == self.arena@.len(),
                encoder@ == start + memory_types_bytes(local_memories(self@.take(i as int))),
                indices@ == old(indices)@ + local_memories(self@.take(i as int)).map_values(
                    |m: MemoryModel| m.id,
                ),
            decreases n - i,
        {
            let ghost before = local_memories(self@.take(i as int));
            proof {
                assert(self@.take(i + 1).drop_last() == self@.take(i as int));
                assert(self@.take(i + 1).last() == self@[i as int]);
            }
            match self.arena.slot(i) {
                Some(memory) => {
                    if memory.import.is_none() {
                        indices.push_memory(memory.id());
                        memory.emit(encoder);
                        proof {
                            let after = before.push(memory@);
                            assert(after.drop_last() =~= before);
                            assert(after.map_values(|m: MemoryModel| m.id) =~= before.map_values(
                                |m: MemoryModel| m.id,
                            ).push(memory@.id));
                        }
                    }
                },
                None => {},
            }
            i += 1;
        }
        proof {
            assert(self@.take(n as int) == self@);
        }
    }
}

/// `b` follows `a` by one creation (a new slot at the end) or one deletion
/// (a slot turned into a tombstone).
pub open spec fn creation_or_deletion(a: Seq<Option<MemoryModel>>, b: Seq<Option<MemoryModel>>) -> bool {
    (exists|m: MemoryModel| b == a.push(Some(m))) || (exists|j: int|
        0 <= j < a.len() && b == a.update(j, None))
}

/// Ids are stable. Along any run `h` of collections, each one following the
/// last by a creation or a deletion, an id that exists at step `k1` still
/// exists at every later step `k2`; where it is live at `k2`, it names the
/// very record it named at `k1`; and once it is a tombstone it stays one.
pub proof fn lemma_id_stability(
    h: Seq<Seq<Option<MemoryModel>>>,
    id: MemoryId,
    k1: int,
    k2: int,
)
    requires
        forall|k: int| 0 <= k < h.len() - 1 ==> creation_or_deletion(#[trigger] h[k], h[k + 1]),
        0 <= k1 <= k2 < h.len(),
        id.index < h[k1].len(),
    ensures
        id.index < h[k2].len(),
        h[k2][id.index as int] is Some ==> h[k2][id.index as int] == h[k1][id.index as int],
        h[k1][id.index as int] is None ==> h[k2][id.index as int] is None,
    decreases k2 - k1,
{
    if k1 < k2 {
        lemma_id_stability(h, id, k1, k2 - 1);
        let a = h[k2 - 1];
        let b = h[k2];
        assert(creation_or_deletion(a, b));
        if exists|m: MemoryModel| b == a.push(Some(m)) {
            let m = choose|m: MemoryModel| b == a.push(Some(m));
            assert(b[id.index as int] == a[id.index as int]);
        } else {
            let j = choose|j: int| 0 <= j < a.len() && b == a.update(j, None);
            assert(b[id.index as int] is None || b[id.index as int] == a[id.index as int]);
        }
    }
}

/// A deleted memory is gone: its id is not live, so `get` and `get_mut` do
/// not accept it, and `iter` lists no memory of its slot.
pub proof fn lemma_tombstone_isolation(memories: &ModuleMemories, id: MemoryId)
    requires
        id.index < memories@.len(),
        memories@[id.index as int] is None,
    ensures
        !memories.is_live(id),
        !live_indices(memories@).contains(id.index),
{
    memories.arena.lemma_len();
    lemma_live_indices(memories@);
}

/// A collection whose live memories are all imported writes no memory
/// section at all.
pub proof fn lemma_import_omission(s: Seq<Option<MemoryModel>>)
    requires
        forall|i: int| 0 <= i < s.len() && s[i] is Some ==> (#[trigger] s[i])->Some_0.import is Some,
    ensures
        memory_section(s) == Seq::<u8>::empty(),
{
    lemma_no_local_memories(s);
}

proof fn lemma_no_local_memories(s: Seq<Option<MemoryModel>>)
    requires
        forall|i: int| 0 <= i < s.len() && s[i] is Some ==> (#[trigger] s[i])->Some_0.import is Some,
    ensures
        local_memories(s).len() == 0,
    decreases s.len(),
{
    if s.len() > 0 {
        let p = s.drop_last();
        assert forall|i: int| 0 <= i < p.len() && p[i] is Some implies (#[trigger] p[i])->Some_0.import is Some by {
            assert(p[i] == s[i]);
        }
        lemma_no_local_memories(p);
        assert(s.last() == s[s.len() - 1]);
    }
}

} // verus!
