//! Reading the memory section of a binary module into a collection.

use vstd::prelude::*;
use crate::data::DataModel;
use crate::ids::MemoryId;
use crate::indices::IndicesToIds;
use crate::encode::leb128;
use crate::memories::{
    MemoryModel, ModuleMemories, local_memories, memory_section, memory_type_bytes,
    memory_types_bytes,
};

verus! {

#[verifier::external_type_specification]
#[verifier::external_body]
pub struct ExBinaryReaderError(wasmparser::BinaryReaderError);

/// A memory type as the section declares it: whether the memory is shared,
/// its initial size and its maximum size, if one is declared.
pub type MemoryType = (bool, u32, Option<u32>);

/// The memory types that the memory section body `data` declares, in order,
/// or `None` where `data` is malformed.
pub uninterp spec fn memory_section_types(data: Seq<u8>) -> Option<Seq<(bool, u32, Option<u32>)>>;

/// Relies on wasmparser's `MemorySectionReader`: it reads a count and then
/// that many memory types, fails on the first malformed one, and fails where
/// bytes are left over. Its result depends on the bytes alone.
#[verifier::external_body]
fn read_memory_section(data: &[u8]) -> (r: Result<Vec<MemoryType>, wasmparser::BinaryReaderError>)
    ensures
        r is Ok <==> memory_section_types(data@) is Some,
        r is Ok ==> r->Ok_0@ == memory_section_types(data@)->Some_0,
{
    wasmparser::MemorySectionReader::new(data, 0)?
        .into_iter()
        .map(|m| m.map(|m| (m.shared, m.limits.initial, m.limits.maximum)))
        .collect()
}

/// A memory section that could not be decoded.
pub struct DecodeError {
    pub error: wasmparser::BinaryReaderError,
}

/// The local memory that `add_local` creates in slot `index` from `t`.
pub open spec fn memory_of_type(index: int, t: MemoryType) -> MemoryModel {
    MemoryModel {
        id: MemoryId { index: index as usize },
        shared: t.0,
        initial: t.1,
        maximum: t.2,
        import: None,
        data: DataModel { absolute: Seq::empty(), relative: Seq::empty() },
    }
}

/// The slots `s` followed by one local memory for each of `types`.
pub open spec fn with_memory_types(
    s: Seq<Option<MemoryModel>>,
    types: Seq<MemoryType>,
) -> Seq<Option<MemoryModel>> {
    s + Seq::new(types.len(), |k: int| Some(memory_of_type(s.len() + k, types[k])))
}

/// The ids that the memories of `with_memory_types(s, types)` after `s` get.
pub open spec fn new_ids(s: Seq<Option<MemoryModel>>, types: Seq<MemoryType>) -> Seq<MemoryId> {
    Seq::new(types.len(), |k: int| MemoryId { index: (s.len() + k) as usize })
}

/// The memory types `types`, encoded one after the other.
pub open spec fn types_bytes(types: Seq<MemoryType>) -> Seq<u8>
    decreases types.len(),
{
    if types.len() == 0 {
        Seq::empty()
    } else {
        let t = types.last();
        types_bytes(types.drop_last()) + memory_type_bytes(t.0, t.1, t.2)
    }
}

/// The shortest encoding of a memory section body that declares `types`: the
/// count, then each type with its flags byte and minimal integers.
pub open spec fn canonical_section(types: Seq<MemoryType>) -> Seq<u8> {
    leb128(types.len()) + types_bytes(types)
}

/// Reading memory types into an empty collection and writing its memory
/// section reproduces the canonical encoding of those types: a section in
/// that encoding comes out byte for byte as it went in. A section that
/// declares no memory is the exception, as it is left out on writing.
pub proof fn lemma_round_trip(types: Seq<MemoryType>)
    requires
        types.len() > 0,
    ensures
        memory_section(with_memory_types(Seq::empty(), types)) == canonical_section(types),
{
    lemma_local_of_types(types);
}

/// The local memories of slots made from `types` are one per type.
proof fn lemma_local_of_types(types: Seq<MemoryType>)
    ensures
        local_memories(with_memory_types(Seq::empty(), types)).len() == types.len(),
        memory_types_bytes(local_memories(with_memory_types(Seq::empty(), types)))
            == types_bytes(types),
    decreases types.len(),
{
    let s = with_memory_types(Seq::empty(), types);
    if types.len() > 0 {
        let p = types.drop_last();
        lemma_local_of_types(p);
        assert(s.drop_last() =~= with_memory_types(Seq::empty(), p));
        let ms = local_memories(s);
        assert(ms.drop_last() =~= local_memories(with_memory_types(Seq::empty(), p)));
    } else {
        assert(s =~= Seq::empty());
    }
}

impl ModuleMemories {
    /// Adds a local memory for each of `types`, in order, and gives each new
    /// id the next index of `ids`.
    pub fn add_memory_types(&mut self, types: &Vec<MemoryType>, ids: &mut IndicesToIds)
        ensures
            final(self)@ == with_memory_types(old(self)@, types@),
            final(ids)@ == old(ids)@ + new_ids(old(self)@, types@),
    {
        let ghost s0 = self@;
        let mut i: usize = 0;
        while i < types.len()
            invariant
                i <= types@.len(),
                self@ == with_memory_types(s0, types@.take(i as int)),
                ids@ == old(ids)@ + new_ids(s0, types@.take(i as int)),
            decreases types@.len() - i,
        {
            let t = types[i];
            let id = self.add_local(t.0, t.1, t.2);
            ids.push_memory(id);
            proof {
                let next = types@.take(i + 1);
                assert(next.drop_last() =~= types@.take(i as int));
                assert(self@ =~= with_memory_types(s0, next));
                assert(ids@ =~= old(ids)@ + new_ids(s0, next));
            }
            i += 1;
        }
        proof {
            assert(types@.take(i as int) =~= types@);
        }
    }

    /// Reads the memory section body `data` and adds its memories as
    /// `add_memory_types` does. Where `data` is malformed, nothing is added
    /// and the decoder's error is returned.
    pub fn parse_memories(&mut self, data: &[u8], ids: &mut IndicesToIds) -> (r: Result<
        (),
        DecodeError,
    >)
        ensures
            r is Ok <==> memory_section_types(data@) is Some,
            r is Ok ==> final(self)@ == with_memory_types(
                old(self)@,
                memory_section_types(data@)->Some_0,
            ) && final(ids)@ == old(ids)@ + new_ids(
                old(self)@,
                memory_section_types(data@)->Some_0,
            ),
            r is Err ==> final(self)@ == old(self)@ && final(ids)@ == old(ids)@,
    {
        match read_memory_section(data) {
            Ok(types) => {
                self.add_memory_types(&types, ids);
                Ok(())
            },
            Err(error) => Err(DecodeError { error }),
        }
    }
}

} // verus!
