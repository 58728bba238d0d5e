//! The table between the binary format's memory indices and memory ids.

use vstd::prelude::*;
use crate::ids::MemoryId;

verus! {

/// Memory ids in the order of their binary-format index: the id at position
/// `i` is the memory that index `i` refers to.
pub struct IndicesToIds {
    memories: Vec<MemoryId>,
}

impl View for IndicesToIds {
    type V = Seq<MemoryId>;

    closed spec fn view(&self) -> Seq<MemoryId> {
        self.memories@
    }
}

impl IndicesToIds {
    /// A table with no entry.
    pub fn new() -> (r: IndicesToIds)
        ensures
            r@ == Seq::<MemoryId>::empty(),
    {
        IndicesToIds { memories: Vec::new() }
    }

    /// Gives `id` the next index.
    pub fn push_memory(&mut self, id: MemoryId)
        ensures
            final(self)@ == old(self)@.push(id),
    {
        self.memories.push(id);
    }

    /// The id behind `index`, if the table has that many entries.
    pub fn get_memory(&self, index: usize) -> (r: Option<MemoryId>)
        ensures
            r == (if index < self@.len() {
                Some(self@[index as int])
            } else {
                None
            }),
    {
        if index < self.memories.len() {
            Some(self.memories[index])
        } else {
            None
        }
    }

    /// The number of entries.
    pub fn len(&self) -> (r: usize)
        ensures
            r == self@.len(),
    {
        self.memories.len()
    }
}

} // verus!
