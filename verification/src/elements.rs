//! The module AST and its binary codec.

pub mod error;
pub mod export_entry;
pub mod func;
pub mod global_entry;
pub mod import_entry;
pub mod io;
pub mod module;
pub mod ops;
pub mod primitives;
pub mod section;
pub mod segment;
pub mod traits;
pub mod types;

pub use error::Error;
pub use export_entry::{ExportEntry, Internal};
pub use func::{Func, FuncBody, Local};
pub use global_entry::GlobalEntry;
pub use import_entry::{External, GlobalType, ImportEntry, MemoryType, ResizableLimits, TableType};
pub use io::Reader;
pub use module::{Module, deserialize_buffer, deserialize_module, serialize};
pub use ops::{InitExpr, Opcode, Opcodes};
pub use primitives::{
    CountedList, CountedWriter, Uint32, Uint64, VarInt32, VarInt64, VarInt7, VarUint1, VarUint32,
    VarUint64, VarUint7,
};
pub use section::{
    CodeSection, CustomSection, DataSection, ElementSection, ExportSection, FunctionSection,
    GlobalSection, ImportSection, MemorySection, Section, TableSection, TypeSection,
};
pub use traits::{Deserialize, Serialize};
pub use segment::{DataSegment, ElementSegment};
pub use types::{BlockType, FunctionType, Type, ValueType};
