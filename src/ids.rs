//! Identifiers of module entities.

use vstd::prelude::*;

verus! {

/// The stable id of a memory: the index of its slot in the module's arena.
#[derive(Clone, Copy, Debug, PartialEq, Eq, Hash, Structural)]
pub struct MemoryId {
    pub index: usize,
}

impl MemoryId {
    /// The slot index behind this id.
    pub fn index(&self) -> (r: usize)
        ensures
            r == self.index,
    {
        self.index
    }
}

/// The id of a global of the module, as given out by the global registry.
#[derive(Clone, Copy, Debug, PartialEq, Eq, Hash, Structural)]
pub struct GlobalId {
    pub index: usize,
}

/// The id of an import record of the module, as given out by the import
/// registry.
#[derive(Clone, Copy, Debug, PartialEq, Eq, Hash, Structural)]
pub struct ImportId {
    pub index: usize,
}

/// A constant value.
#[derive(Clone, Copy, Debug, PartialEq, Eq, Structural)]
pub enum Value {
    I32(i32),
}

/// An initializer expression: a constant, or the value of a global.
#[derive(Clone, Copy, Debug, PartialEq, Eq, Structural)]
pub enum InitExpr {
    Value(Value),
    Global(GlobalId),
}

} // verus!
