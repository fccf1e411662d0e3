use sophon_wasm::elements::{FunctionType, Internal, ValueType};
use sophon_wasm::interpreter::check_indirect_signature;
use sophon_wasm::interpreter::emscripten::env_module;
use sophon_wasm::interpreter::env::EmscriptenParams;
use sophon_wasm::interpreter::env_native::{
    ExportEntryType, NativeModuleInstance, NativeResolution, UserDefinedElements,
    UserFunctionDescriptor,
};
use sophon_wasm::interpreter::program::{program_with_emscripten_env, ProgramInstance};
use sophon_wasm::interpreter::value::RuntimeValue;
use sophon_wasm::interpreter::variable::VariableType;
use sophon_wasm::interpreter::Error;

#[test]
fn export_entry_resolves_native_global() {
    let env = env_module(&EmscriptenParams::default()).unwrap();
    // STACKTOP is the second host global, so it lives at the global base + 1.
    assert_eq!(
        env.native.export_entry("STACKTOP", &ExportEntryType::Any),
        Ok(Internal::Global(20002))
    );
    assert_eq!(
        env.native.export_entry("STACKTOP", &ExportEntryType::Global(VariableType::I32)),
        Ok(Internal::Global(20002))
    );
    // A type mismatch on the native candidate falls through; the wrapped
    // module exports nothing under this name, so the lookup fails.
    assert_eq!(
        env.native.export_entry("STACKTOP", &ExportEntryType::Global(VariableType::I64)),
        Err(Error::ExportNotFound)
    );
}

#[test]
fn export_entry_resolves_native_function() {
    let env = env_module(&EmscriptenParams::default()).unwrap();
    // "assert" is the third host function, so it lives at the function
    // base + 2.
    assert_eq!(
        env.native.export_entry("assert", &ExportEntryType::Any),
        Ok(Internal::Function(10003))
    );
    let matching = FunctionType::new(vec![ValueType::I32], None);
    assert_eq!(
        env.native.export_entry("assert", &ExportEntryType::Function(matching)),
        Ok(Internal::Function(10003))
    );
    let mismatching = FunctionType::new(vec![ValueType::I64], None);
    assert_eq!(
        env.native.export_entry("assert", &ExportEntryType::Function(mismatching)),
        Err(Error::ExportNotFound)
    );
}

#[test]
fn export_entry_falls_back_to_wrapped_exports() {
    let env = env_module(&EmscriptenParams::default()).unwrap();
    assert_eq!(
        env.native.export_entry("memory", &ExportEntryType::Any),
        Ok(Internal::Memory(0))
    );
    assert_eq!(
        env.native.export_entry("table", &ExportEntryType::Any),
        Ok(Internal::Table(0))
    );
    assert_eq!(
        env.native.export_entry("nothing", &ExportEntryType::Any),
        Err(Error::ExportNotFound)
    );
}

#[test]
fn internal_call_dispatch() {
    let env = env_module(&EmscriptenParams::default()).unwrap();
    match env.native.call_internal_function(5).unwrap() {
        NativeResolution::Wrapped(i) => assert_eq!(i, 5),
        NativeResolution::Host(_) => panic!("index below the base must delegate"),
    }
    match env.native.call_internal_function(10001).unwrap() {
        NativeResolution::Host(d) => assert_eq!(d.name(), "_abort"),
        NativeResolution::Wrapped(_) => panic!("index at the base must be native"),
    }
    assert!(matches!(
        env.native.call_internal_function(10006),
        Err(Error::NativeItemMissing)
    ));
    match env.native.global(20001).unwrap() {
        NativeResolution::Host(v) => assert_eq!(v.get(), RuntimeValue::I32(256 * 1024)),
        NativeResolution::Wrapped(_) => panic!("index at the global base must be native"),
    }
}

#[test]
fn native_module_requires_executor() {
    let elements = UserDefinedElements {
        globals: vec![],
        functions: vec![UserFunctionDescriptor::statik("f", &[], None)],
        has_executor: false,
    };
    assert!(matches!(
        NativeModuleInstance::new(vec![], elements),
        Err(Error::ExecutorMissing)
    ));

    let without_functions = UserDefinedElements {
        globals: vec![],
        functions: vec![],
        has_executor: false,
    };
    assert!(NativeModuleInstance::new(vec![], without_functions).is_ok());
}

#[test]
fn program_registry_lookup_and_replace() {
    let mut program: ProgramInstance<u32> = ProgramInstance::with_env_module(1);
    assert_eq!(program.module("env"), Some(&1));
    assert_eq!(program.module("main"), None);
    program.insert_loaded_module("main", 2);
    assert_eq!(program.module("main"), Some(&2));
    program.insert_loaded_module("main", 3);
    assert_eq!(program.module("main"), Some(&3));
    assert_eq!(program.module("env"), Some(&1));
}

#[test]
fn program_with_env() {
    let program = program_with_emscripten_env(&EmscriptenParams::default()).unwrap();
    let env = program.module("env").expect("env module to be registered");
    assert_eq!(env.memory.pages(), 256);
}

#[test]
fn indirect_signature_mismatch_traps() {
    let stored = FunctionType::new(vec![ValueType::I32], Some(ValueType::I32));
    let expected = FunctionType::new(vec![ValueType::I64], Some(ValueType::I64));
    assert_eq!(
        check_indirect_signature(&stored, &expected),
        Err(Error::IndirectCallMismatch)
    );
    let same = FunctionType::new(vec![ValueType::I32], Some(ValueType::I32));
    assert_eq!(check_indirect_signature(&stored, &same), Ok(()));
}
