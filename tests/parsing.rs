use wasm_memories::{Encoder, IndicesToIds, ModuleMemories};

fn round_trip(section: &[u8]) -> Vec<u8> {
    let mut memories = ModuleMemories::new();
    let mut ids = IndicesToIds::new();
    assert!(memories.parse_memories(section, &mut ids).is_ok());
    let mut encoder = Encoder::new();
    let mut indices = IndicesToIds::new();
    memories.emit(&mut encoder, &mut indices);
    encoder.into_bytes()
}

#[test]
fn canonical_section_round_trips() {
    let section = [0x03, 0x00, 0x01, 0x01, 0x01, 0x02, 0x03, 0xac, 0x02, 0x80, 0x80, 0x04];
    assert_eq!(round_trip(&section), section.to_vec());
}

#[test]
fn single_memory_round_trips() {
    let section = [0x01, 0x00, 0x00];
    assert_eq!(round_trip(&section), section.to_vec());
}

#[test]
fn overlong_integer_comes_out_minimal() {
    let section = [0x01, 0x00, 0x81, 0x00];
    assert_eq!(round_trip(&section), vec![0x01, 0x00, 0x01]);
}

#[test]
fn parsed_memories_are_local_and_recorded() {
    let mut memories = ModuleMemories::new();
    let mut ids = IndicesToIds::new();
    let section = [0x02, 0x01, 0x01, 0x02, 0x03, 0x04, 0x05];
    assert!(memories.parse_memories(&section, &mut ids).is_ok());
    assert_eq!(ids.len(), 2);
    let first = ids.get_memory(0).unwrap();
    let second = ids.get_memory(1).unwrap();
    assert_eq!(first.index(), 0);
    assert_eq!(second.index(), 1);
    let m = memories.get(first);
    assert!(!m.shared);
    assert_eq!((m.initial, m.maximum), (1, Some(2)));
    assert!(m.import.is_none());
    let m = memories.get(second);
    assert!(m.shared);
    assert_eq!((m.initial, m.maximum), (4, Some(5)));
}

#[test]
fn bad_flags_are_rejected() {
    let mut memories = ModuleMemories::new();
    let mut ids = IndicesToIds::new();
    let section = [0x02, 0x00, 0x01, 0x04, 0x01];
    assert!(memories.parse_memories(&section, &mut ids).is_err());
    assert_eq!(ids.len(), 0);
    assert!(memories.iter().is_empty());
}

#[test]
fn truncated_section_is_rejected() {
    let mut memories = ModuleMemories::new();
    let mut ids = IndicesToIds::new();
    assert!(memories.parse_memories(&[0x02, 0x00, 0x01], &mut ids).is_err());
    assert!(memories.parse_memories(&[], &mut ids).is_err());
    assert_eq!(ids.len(), 0);
}

#[test]
fn trailing_bytes_are_rejected() {
    let mut memories = ModuleMemories::new();
    let mut ids = IndicesToIds::new();
    assert!(memories.parse_memories(&[0x01, 0x00, 0x01, 0x00], &mut ids).is_err());
}

#[test]
fn parsing_appends_after_existing_memories() {
    let mut memories = ModuleMemories::new();
    let mut ids = IndicesToIds::new();
    memories.add_local(false, 9, None);
    assert!(memories.parse_memories(&[0x01, 0x00, 0x02], &mut ids).is_ok());
    let id = ids.get_memory(0).unwrap();
    assert_eq!(id.index(), 1);
    assert_eq!(memories.get(id).initial, 2);
}

#[test]
fn add_memory_types_without_decoding() {
    let mut memories = ModuleMemories::new();
    let mut ids = IndicesToIds::new();
    memories.add_memory_types(&vec![(false, 1, None), (true, 2, Some(3))], &mut ids);
    let mut encoder = Encoder::new();
    let mut indices = IndicesToIds::new();
    memories.emit(&mut encoder, &mut indices);
    assert_eq!(encoder.into_bytes(), vec![0x02, 0x00, 0x01, 0x03, 0x02, 0x03]);
    assert_eq!(ids.get_memory(1), indices.get_memory(1));
}
