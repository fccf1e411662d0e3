use sophon_wasm::elements::ValueType;
use sophon_wasm::interpreter::emscripten::env_module;
use sophon_wasm::interpreter::env::EmscriptenParams;
use sophon_wasm::interpreter::env_native::{
    is_native_function_index, is_native_global_index, native_function_offset,
    UserFunctionDescriptor, NATIVE_INDEX_FUNC_MIN,
};
use sophon_wasm::interpreter::value::RuntimeValue;
use sophon_wasm::interpreter::Error;

#[test]
fn default_env_params() {
    let params = EmscriptenParams::default();
    assert_eq!(params.total_stack, 5 * 1024 * 1024);
    assert_eq!(params.total_memory, 16 * 1024 * 1024);
    assert!(params.allow_memory_growth);
    assert_eq!(params.table_size, 64);
    assert_eq!(params.max_memory(), None);

    let fixed = EmscriptenParams { allow_memory_growth: false, ..EmscriptenParams::default() };
    assert_eq!(fixed.max_memory(), Some(16 * 1024 * 1024));
}

#[test]
fn env_module_layout() {
    let env = env_module(&EmscriptenParams::default()).unwrap();
    assert_eq!(env.memory.pages(), 256);
    assert_eq!(env.table.len(), 64);
    assert_eq!(env.native.functions.len(), 5);
    assert_eq!(env.native.globals.len(), 9);
    assert_eq!(env.native.env_exports.len(), 2);
    let stacktop = env
        .native
        .globals
        .iter()
        .find(|(name, _)| name == "STACKTOP")
        .map(|(_, var)| var.get());
    assert_eq!(stacktop, Some(RuntimeValue::I32(256 * 1024)));
    let total = env
        .native
        .globals
        .iter()
        .find(|(name, _)| name == "TOTAL_MEMORY")
        .map(|(_, var)| var.get());
    assert_eq!(total, Some(RuntimeValue::I32(16 * 1024 * 1024)));
}

#[test]
fn env_executor_decisions() {
    let env = env_module(&EmscriptenParams::default()).unwrap();
    let executor = &env.executor;
    assert_eq!(executor.execute("abort", None), Err(Error::AbortTrap));
    assert_eq!(executor.execute("_abort", None), Err(Error::AbortTrap));
    assert_eq!(executor.execute("assert", Some(0)), Err(Error::AssertionFailure));
    assert_eq!(executor.execute("assert", Some(7)), Ok(None));
    assert_eq!(executor.execute("enlargeMemory", None), Ok(Some(RuntimeValue::I32(0))));
    assert_eq!(
        executor.execute("getTotalMemory", None),
        Ok(Some(RuntimeValue::I32(16 * 1024 * 1024)))
    );
    assert_eq!(executor.execute("somethingElse", None), Err(Error::NotImplemented));
}

#[test]
fn descriptor_accessors() {
    let statik = UserFunctionDescriptor::statik("assert", &[ValueType::I32], None);
    assert_eq!(statik.name(), "assert");
    assert_eq!(statik.params(), &[ValueType::I32]);
    assert_eq!(statik.return_type(), None);

    let heap = UserFunctionDescriptor::heap(
        "add".to_string(),
        vec![ValueType::I32, ValueType::I32],
        Some(ValueType::I32),
    );
    assert_eq!(heap.name(), "add");
    assert_eq!(heap.params().len(), 2);
    assert_eq!(heap.return_type(), Some(ValueType::I32));
}

#[test]
fn native_index_spaces() {
    assert!(!is_native_function_index(0));
    assert!(!is_native_function_index(10000));
    assert!(is_native_function_index(10001));
    assert!(is_native_function_index(20000));
    assert!(!is_native_function_index(20001));
    assert_eq!(native_function_offset(NATIVE_INDEX_FUNC_MIN + 3), 3);
    assert!(!is_native_global_index(20000));
    assert!(is_native_global_index(20001));
}
