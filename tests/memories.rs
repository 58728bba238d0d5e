use wasm_memories::{
    Encoder, GlobalId, ImportId, IndicesToIds, InitExpr, MemoryData, MemoryId, ModuleMemories,
    Value,
};

fn section_of(memories: &ModuleMemories) -> (Vec<u8>, IndicesToIds) {
    let mut encoder = Encoder::new();
    let mut indices = IndicesToIds::new();
    memories.emit(&mut encoder, &mut indices);
    (encoder.into_bytes(), indices)
}

#[test]
fn segment_groups_are_emitted_absolute_first() {
    let mut data = MemoryData::new();
    data.add_relative(GlobalId { index: 1 }, vec![1]);
    data.add_absolute(16, vec![2, 2]);
    data.add_relative(GlobalId { index: 2 }, vec![3, 3, 3]);
    let segments = data.into_iter();
    assert_eq!(
        segments,
        vec![
            (InitExpr::Value(Value::I32(16)), vec![2, 2]),
            (InitExpr::Global(GlobalId { index: 1 }), vec![1]),
            (InitExpr::Global(GlobalId { index: 2 }), vec![3, 3, 3]),
        ]
    );
}

#[test]
fn emit_data_borrows_segments_in_group_order() {
    let mut memories = ModuleMemories::new();
    let id = memories.add_local(false, 1, None);
    let memory = memories.get_mut(id);
    memory.data.add_relative(GlobalId { index: 1 }, vec![1]);
    memory.data.add_absolute(16, vec![2, 2]);
    memory.data.add_relative(GlobalId { index: 2 }, vec![3, 3, 3]);
    let memory = memories.get(id);
    let segments = memory.emit_data();
    assert_eq!(segments.len(), 3);
    assert_eq!(segments[0], (InitExpr::Value(Value::I32(16)), &[2u8, 2][..]));
    assert_eq!(segments[1], (InitExpr::Global(GlobalId { index: 1 }), &[1u8][..]));
    assert_eq!(segments[2], (InitExpr::Global(GlobalId { index: 2 }), &[3u8, 3, 3][..]));
    assert_eq!(memory.data.iter(), segments);
}

#[test]
fn absolute_offset_keeps_its_bits_as_i32() {
    let mut data = MemoryData::new();
    data.add_absolute(0x8000_0000, vec![]);
    data.add_absolute(u32::MAX, vec![9]);
    let segments = data.into_iter();
    assert_eq!(segments[0].0, InitExpr::Value(Value::I32(i32::MIN)));
    assert_eq!(segments[1].0, InitExpr::Value(Value::I32(-1)));
}

#[test]
fn globals_lists_each_relative_segment() {
    let mut data = MemoryData::new();
    assert!(data.is_empty());
    assert!(data.globals().is_empty());
    data.add_relative(GlobalId { index: 4 }, vec![1]);
    data.add_absolute(0, vec![]);
    data.add_relative(GlobalId { index: 4 }, vec![2]);
    data.add_relative(GlobalId { index: 7 }, vec![3]);
    assert!(!data.is_empty());
    assert_eq!(
        data.globals(),
        vec![GlobalId { index: 4 }, GlobalId { index: 4 }, GlobalId { index: 7 }]
    );
}

#[test]
fn is_empty_with_only_absolute_segments() {
    let mut data = MemoryData::new();
    data.add_absolute(8, vec![1]);
    assert!(!data.is_empty());
}

#[test]
fn memory_with_maximum_encodes_flag_one() {
    let mut memories = ModuleMemories::new();
    let id = memories.add_local(false, 1, Some(2));
    let mut encoder = Encoder::new();
    memories.get(id).emit(&mut encoder);
    assert_eq!(encoder.as_bytes(), &[0x01, 0x01, 0x02]);
}

#[test]
fn memory_without_maximum_encodes_flag_zero() {
    let mut memories = ModuleMemories::new();
    let id = memories.add_local(false, 1, None);
    let mut encoder = Encoder::new();
    memories.get(id).emit(&mut encoder);
    assert_eq!(encoder.as_bytes(), &[0x00, 0x01]);
}

#[test]
fn shared_memory_with_maximum_encodes_flag_three() {
    let mut memories = ModuleMemories::new();
    let id = memories.add_local(true, 300, Some(65536));
    let mut encoder = Encoder::new();
    memories.get(id).emit(&mut encoder);
    assert_eq!(encoder.as_bytes(), &[0x03, 0xac, 0x02, 0x80, 0x80, 0x04]);
}

#[test]
fn shared_memory_without_maximum_encodes_flag_zero() {
    let mut memories = ModuleMemories::new();
    let id = memories.add_local(true, 2, None);
    let mut encoder = Encoder::new();
    memories.get(id).emit(&mut encoder);
    assert_eq!(encoder.as_bytes(), &[0x00, 0x02]);
}

#[test]
fn section_counts_local_memories() {
    let mut memories = ModuleMemories::new();
    let a = memories.add_local(false, 1, Some(2));
    memories.add_import(false, 5, None, ImportId { index: 0 });
    let c = memories.add_local(false, 1, None);
    let (bytes, indices) = section_of(&memories);
    assert_eq!(bytes, vec![0x02, 0x01, 0x01, 0x02, 0x00, 0x01]);
    assert_eq!(indices.len(), 2);
    assert_eq!(indices.get_memory(0), Some(a));
    assert_eq!(indices.get_memory(1), Some(c));
    assert_eq!(indices.get_memory(2), None);
}

#[test]
fn only_imported_memories_emit_nothing() {
    let mut memories = ModuleMemories::new();
    memories.add_import(false, 1, Some(2), ImportId { index: 0 });
    memories.add_import(true, 1, Some(4), ImportId { index: 1 });
    let (bytes, indices) = section_of(&memories);
    assert!(bytes.is_empty());
    assert_eq!(indices.len(), 0);
}

#[test]
fn empty_collection_emits_nothing() {
    let memories = ModuleMemories::new();
    let (bytes, _) = section_of(&memories);
    assert!(bytes.is_empty());
}

#[test]
fn deleted_memories_are_not_emitted() {
    let mut memories = ModuleMemories::new();
    let a = memories.add_local(false, 1, None);
    let b = memories.add_local(false, 2, None);
    memories.delete(a);
    let (bytes, indices) = section_of(&memories);
    assert_eq!(bytes, vec![0x01, 0x00, 0x02]);
    assert_eq!(indices.get_memory(0), Some(b));
}

#[test]
fn ids_are_stable_across_deletion() {
    let mut memories = ModuleMemories::new();
    let a = memories.add_local(false, 1, None);
    let b = memories.add_import(true, 2, Some(3), ImportId { index: 9 });
    let c = memories.add_local(false, 4, Some(5));
    memories.delete(b);
    let d = memories.add_local(false, 6, None);
    assert_eq!(a.index(), 0);
    assert_eq!(c.index(), 2);
    assert_eq!(d.index(), 3);
    assert_ne!(d, b);
    assert_eq!(memories.get(a).id(), a);
    assert_eq!(memories.get(a).initial, 1);
    assert_eq!(memories.get(c).id(), c);
    assert_eq!(memories.get(c).initial, 4);
    assert_eq!(memories.get(c).maximum, Some(5));
    assert_eq!(memories.get(d).initial, 6);
}

#[test]
fn imported_memory_keeps_its_import() {
    let mut memories = ModuleMemories::new();
    let id = memories.add_import(true, 2, Some(3), ImportId { index: 9 });
    let memory = memories.get(id);
    assert_eq!(memory.import, Some(ImportId { index: 9 }));
    assert!(memory.shared);
    assert!(memory.data.is_empty());
}

#[test]
fn iteration_skips_tombstones() {
    let mut memories = ModuleMemories::new();
    let a = memories.add_local(false, 1, None);
    let b = memories.add_local(false, 2, None);
    let c = memories.add_local(false, 3, None);
    memories.delete(b);
    let ids: Vec<MemoryId> = memories.iter().iter().map(|m| m.id()).collect();
    assert_eq!(ids, vec![a, c]);
    memories.delete(a);
    memories.delete(c);
    assert!(memories.iter().is_empty());
}

#[test]
fn deleting_twice_does_nothing_more() {
    let mut memories = ModuleMemories::new();
    let a = memories.add_local(false, 1, None);
    let b = memories.add_local(false, 2, None);
    memories.delete(a);
    memories.delete(a);
    let ids: Vec<MemoryId> = memories.iter().iter().map(|m| m.id()).collect();
    assert_eq!(ids, vec![b]);
}

#[test]
fn get_mut_changes_only_its_memory() {
    let mut memories = ModuleMemories::new();
    let a = memories.add_local(false, 1, None);
    let b = memories.add_local(false, 2, None);
    memories.get_mut(a).maximum = Some(10);
    memories.get_mut(a).data.add_absolute(0, vec![7]);
    assert_eq!(memories.get(a).maximum, Some(10));
    assert!(!memories.get(a).data.is_empty());
    assert_eq!(memories.get(b).maximum, None);
    assert!(memories.get(b).data.is_empty());
}

#[test]
fn on_delete_clears_data() {
    let mut memories = ModuleMemories::new();
    let a = memories.add_local(false, 1, None);
    let memory = memories.get_mut(a);
    memory.data.add_absolute(0, vec![7]);
    memory.data.add_relative(GlobalId { index: 0 }, vec![8]);
    memory.on_delete();
    assert!(memories.get(a).data.is_empty());
    assert_eq!(memories.get(a).initial, 1);
}

#[test]
fn leb128_of_large_values() {
    let mut encoder = Encoder::new();
    encoder.u32(u32::MAX);
    encoder.u32(0);
    encoder.u32(127);
    encoder.u32(128);
    encoder.byte(0xff);
    assert_eq!(
        encoder.into_bytes(),
        vec![0xff, 0xff, 0xff, 0xff, 0x0f, 0x00, 0x7f, 0x80, 0x01, 0xff]
    );
}

#[test]
fn iter_mut_reaches_each_live_memory() {
    let mut memories = ModuleMemories::new();
    let a = memories.add_local(false, 1, None);
    let b = memories.add_local(false, 2, None);
    let c = memories.add_import(false, 3, None, ImportId { index: 0 });
    memories.delete(b);
    let mut seen = Vec::new();
    for memory in memories.iter_mut() {
        seen.push(memory.id());
        memory.initial += 10;
        memory.data.add_absolute(4, vec![5]);
    }
    assert_eq!(seen, vec![a, c]);
    assert_eq!(memories.get(a).initial, 11);
    assert_eq!(memories.get(c).initial, 13);
    assert!(!memories.get(c).data.is_empty());
    assert_eq!(memories.iter().len(), 2);
}
