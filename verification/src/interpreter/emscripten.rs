//! The Emscripten-style host environment: the memory, table, globals, and
//! stub functions it exposes, and the decisions its function executor
//! makes.

use vstd::prelude::*;
use crate::elements::export_entry::Internal;
use crate::elements::import_entry::{MemoryType, TableType};
use crate::elements::types::ValueType;
use crate::interpreter::Error;
use crate::interpreter::env::EmscriptenParams;
use crate::interpreter::env_native::{
    NativeModuleInstance, UserDefinedElements, UserFunctionDescriptor,
};
use crate::interpreter::memory::{LINEAR_MEMORY_PAGE_SIZE, MemoryInstance};
use crate::interpreter::table::TableInstance;
use crate::common::str_eq;
use crate::interpreter::value::RuntimeValue;
use crate::interpreter::variable::{VariableInstance, VariableType};

verus! {

/// Memory address at which the shadow stack begins when no static
/// reserve is set.
pub const DEFAULT_STACK_TOP: u32 = 262144;

/// Default value of the `tableBase` global.
pub const DEFAULT_TABLE_BASE: u32 = 0;

/// Default value of the `memoryBase` global.
pub const DEFAULT_MEMORY_BASE: u32 = 0;

/// Index of the environment's memory.
pub const INDEX_MEMORY: u32 = 0;

/// Index of the environment's table.
pub const INDEX_TABLE: u32 = 0;

/// The host environment: its resources, and the native-module adapter
/// serving its host functions and globals over the wrapped module's
/// exports.
pub struct EmscriptenEnv {
    /// The environment's linear memory.
    pub memory: MemoryInstance,
    /// The environment's table of callable references.
    pub table: TableInstance,
    /// The adapter over the wrapped module's exports.
    pub native: NativeModuleInstance,
    /// The executor deciding each host call.
    pub executor: EmscriptenFunctionExecutor,
}

/// An immutable i32 host global.
fn i32_global(value: u32) -> (r: VariableInstance)
    ensures
        !r.spec_is_mutable(),
        r.spec_variable_type() == VariableType::I32,
        r.spec_value() == RuntimeValue::I32(value as i32),
{
    match VariableInstance::new(false, VariableType::I32, RuntimeValue::I32(value as i32)) {
        Ok(v) => v,
        Err(_) => {
            // An i32 value always matches an i32 cell.
            proof {
                assert(false);
            }
            vstd::pervasive::unreached()
        },
    }
}

/// Build the host environment from its parameters: a memory and table of
/// the declared sizes exported as `memory` and `table`, the shadow-stack
/// and linker globals, and the stub functions, all behind the adapter.
///
/// Every admitted parameter set succeeds: the memory is at most the whole
/// 32-bit space, so its limits are always satisfiable.
pub fn env_module(params: &EmscriptenParams) -> (r: Result<EmscriptenEnv, Error>)
    requires
        params.total_stack < params.total_memory,
        params.total_stack % LINEAR_MEMORY_PAGE_SIZE == 0,
        params.total_memory % LINEAR_MEMORY_PAGE_SIZE == 0,
        params.static_size matches Some(s) ==> s + params.total_stack <= u32::MAX,
        params.static_size is None ==> DEFAULT_STACK_TOP + params.total_stack <= u32::MAX,
    ensures
        r is Ok,
        r matches Ok(env) ==> {
            &&& env.memory.spec_pages() == (params.total_memory as int) / (
            LINEAR_MEMORY_PAGE_SIZE as int)
            &&& env.table.spec_buffer().len() == params.table_size
            &&& env.native.functions@.len() == 5
            &&& env.native.globals@.len() == 9
            &&& env.native.env_exports@.len() == 2
            &&& env.native.wf()
        },
{
    let stack_top: u32 = match params.static_size {
        Some(s) => s,
        None => DEFAULT_STACK_TOP,
    };
    let min_pages = params.total_memory / LINEAR_MEMORY_PAGE_SIZE;
    proof {
        assert(min_pages <= 65535) by (nonlinear_arith)
            requires
                min_pages == params.total_memory / LINEAR_MEMORY_PAGE_SIZE,
                params.total_memory <= u32::MAX,
                LINEAR_MEMORY_PAGE_SIZE == 65536,
        ;
    }
    let max_pages: Option<u32> = match params.max_memory() {
        Some(m) => Some(m / LINEAR_MEMORY_PAGE_SIZE),
        None => None,
    };
    let memory = match MemoryInstance::new(&MemoryType::new(min_pages, max_pages)) {
        Ok(m) => m,
        Err(_) => {
            proof {
                assert(false);
            }
            vstd::pervasive::unreached()
        },
    };
    let table = TableInstance::new(&TableType::new(params.table_size, None));

    let mut exports: Vec<(String, Internal)> = Vec::new();
    exports.push(("memory".to_string(), Internal::Memory(INDEX_MEMORY)));
    exports.push(("table".to_string(), Internal::Table(INDEX_TABLE)));

    let total_mem_global = i32_global(params.total_memory);
    let mut globals: Vec<(String, VariableInstance)> = Vec::new();
    globals.push(("STACK_BASE".to_string(), i32_global(stack_top)));
    globals.push(("STACKTOP".to_string(), i32_global(stack_top)));
    globals.push(("STACK_MAX".to_string(), i32_global(stack_top + params.total_stack)));
    globals.push(("DYNAMIC_BASE".to_string(), i32_global(stack_top + params.total_stack)));
    globals.push(("DYNAMICTOP_PTR".to_string(), i32_global(stack_top + params.total_stack)));
    globals.push(("EXITSTATUS".to_string(), i32_global(0)));
    globals.push(("tableBase".to_string(), i32_global(DEFAULT_TABLE_BASE)));
    globals.push(("memoryBase".to_string(), i32_global(DEFAULT_MEMORY_BASE)));
    globals.push(("TOTAL_MEMORY".to_string(), total_mem_global.clone()));

    let mut functions: Vec<UserFunctionDescriptor> = Vec::new();
    functions.push(UserFunctionDescriptor::statik("_abort", &[], None));
    functions.push(UserFunctionDescriptor::statik("abort", &[], None));
    functions.push(UserFunctionDescriptor::statik("assert", &[ValueType::I32], None));
    functions.push(UserFunctionDescriptor::statik("enlargeMemory", &[], Some(ValueType::I32)));
    functions.push(UserFunctionDescriptor::statik("getTotalMemory", &[], Some(ValueType::I32)));

    let elements = UserDefinedElements { globals, functions, has_executor: true };
    let native = match NativeModuleInstance::new(exports, elements) {
        Ok(n) => n,
        Err(_) => {
            proof {
                assert(false);
            }
            vstd::pervasive::unreached()
        },
    };

    let executor = EmscriptenFunctionExecutor { total_mem_global };
    Ok(EmscriptenEnv { memory, table, native, executor })
}

/// The executor behind the environment's stub functions.
pub struct EmscriptenFunctionExecutor {
    /// The cell holding the environment's total memory size.
    pub total_mem_global: VariableInstance,
}

impl EmscriptenFunctionExecutor {
    /// Decide one host call: `name` is the function called, `condition`
    /// the i32 argument the caller popped for `assert`, if any.
    ///
    /// `abort` and `_abort` trap; `assert` traps exactly on a zero
    /// condition; `enlargeMemory` refuses by answering zero;
    /// `getTotalMemory` answers the total-memory global; any other name
    /// is unimplemented and traps.
    pub fn execute(&self, name: &str, condition: Option<i32>) -> (r: Result<
        Option<RuntimeValue>,
        Error,
    >)
        ensures
            (name@ == "_abort"@ || name@ == "abort"@) ==> r == Err::<Option<RuntimeValue>, Error>(
                Error::AbortTrap,
            ),
            name@ == "assert"@ && name@ != "_abort"@ && name@ != "abort"@ ==> r == (match condition {
                Some(0i32) => Err::<Option<RuntimeValue>, Error>(Error::AssertionFailure),
                Some(_) => Ok::<Option<RuntimeValue>, Error>(None),
                None => Err::<Option<RuntimeValue>, Error>(Error::StackUnderflow),
            }),
            name@ == "enlargeMemory"@ && name@ != "_abort"@ && name@ != "abort"@ && name@
                != "assert"@ ==> r == Ok::<Option<RuntimeValue>, Error>(
                Some(RuntimeValue::I32(0)),
            ),
            name@ == "getTotalMemory"@ && name@ != "_abort"@ && name@ != "abort"@ && name@
                != "assert"@ && name@ != "enlargeMemory"@ ==> r == Ok::<
                Option<RuntimeValue>,
                Error,
            >(Some(self.total_mem_global.spec_value())),
            (name@ != "_abort"@ && name@ != "abort"@ && name@ != "assert"@ && name@
                != "enlargeMemory"@ && name@ != "getTotalMemory"@) ==> r == Err::<
                Option<RuntimeValue>,
                Error,
            >(Error::NotImplemented),
    {
        if str_eq(name, "_abort") || str_eq(name, "abort") {
            Err(Error::AbortTrap)
        } else if str_eq(name, "assert") {
            match condition {
                Some(c) => {
                    if c == 0 {
                        Err(Error::AssertionFailure)
                    } else {
                        Ok(None)
                    }
                },
                None => Err(Error::StackUnderflow),
            }
        } else if str_eq(name, "enlargeMemory") {
            Ok(Some(RuntimeValue::I32(0)))
        } else if str_eq(name, "getTotalMemory") {
            Ok(Some(self.total_mem_global.get()))
        } else {
            Err(Error::NotImplemented)
        }
    }
}

} // verus!
