//! Linear memories of a WebAssembly module: stable ids over a tombstone
//! arena, initializer data segments, and the binary memory section.

pub mod arena;
pub mod data;
pub mod encode;
pub mod ids;
pub mod indices;
pub mod memories;
pub mod parse;

pub use data::MemoryData;
pub use encode::Encoder;
pub use ids::{GlobalId, ImportId, InitExpr, MemoryId, Value};
pub use indices::IndicesToIds;
pub use memories::{Memory, ModuleMemories};
pub use parse::DecodeError;
