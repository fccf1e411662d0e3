//! Parameters of the host-provided environment module.

use vstd::prelude::*;

verus! {

/// Memory address at which the shadow stack begins by default.
pub const DEFAULT_STACK_TOP: u32 = 262144;

/// Bytes allocated for the shadow stack by default.
pub const DEFAULT_TOTAL_STACK: u32 = 5242880;

/// Bytes of linear memory allocated by default.
pub const DEFAULT_TOTAL_MEMORY: u32 = 16777216;

/// Whether the environment memory may grow by default.
pub const DEFAULT_ALLOW_MEMORY_GROWTH: bool = true;

/// Default size of the environment table.
pub const DEFAULT_TABLE_SIZE: u32 = 64;

/// Parameters of the host environment: shadow-stack size, memory size and
/// growth policy, table size, and an optional static reserve.
pub struct EmscriptenParams {
    /// Shadow-stack size in bytes.
    pub total_stack: u32,
    /// Total memory size in bytes.
    pub total_memory: u32,
    /// Whether the memory may grow.
    pub allow_memory_growth: bool,
    /// Table size.
    pub table_size: u32,
    /// Static reserve, if any.
    pub static_size: Option<u32>,
}

impl Default for EmscriptenParams {
    /// The default environment: a five-megabyte shadow stack inside
    /// sixteen megabytes of growable memory.
    fn default() -> (r: Self)
        ensures
            r.total_stack == DEFAULT_TOTAL_STACK,
            r.total_memory == DEFAULT_TOTAL_MEMORY,
            r.allow_memory_growth == DEFAULT_ALLOW_MEMORY_GROWTH,
            r.table_size == DEFAULT_TABLE_SIZE,
            r.static_size is None,
    {
        EmscriptenParams {
            total_stack: DEFAULT_TOTAL_STACK,
            total_memory: DEFAULT_TOTAL_MEMORY,
            allow_memory_growth: DEFAULT_ALLOW_MEMORY_GROWTH,
            table_size: DEFAULT_TABLE_SIZE,
            static_size: None,
        }
    }
}

impl EmscriptenParams {
    /// The maximum memory size the parameters impose: none while growth
    /// is allowed, the initial size otherwise.
    pub fn max_memory(&self) -> (r: Option<u32>)
        ensures
            r == (if self.allow_memory_growth {
                Option::<u32>::None
            } else {
                Some(self.total_memory)
            }),
    {
        if self.allow_memory_growth {
            None
        } else {
            Some(self.total_memory)
        }
    }
}

} // verus!
