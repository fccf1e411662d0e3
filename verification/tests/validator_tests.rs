use sophon_wasm::elements::{BlockType, Opcode, ValueType};
use sophon_wasm::interpreter::validator::{FunctionValidationContext, Validator};
use sophon_wasm::validation::context::ModuleContext;
use sophon_wasm::validation::Error;

fn validate(
    module: &ModuleContext,
    locals: &Vec<ValueType>,
    block_type: BlockType,
    body: Vec<Opcode>,
) -> Result<(), Error> {
    let mut context = FunctionValidationContext::new(module, locals, 1024, 1024, None);
    Validator::validate_function(&mut context, block_type, &body)
}

#[test]
fn validate_simple_add() {
    let module = ModuleContext::default();
    let locals = vec![];
    let r = validate(
        &module,
        &locals,
        BlockType::Value(ValueType::I32),
        vec![
            Opcode::I32Const(1),
            Opcode::I32Const(2),
            Opcode::I32Add,
            Opcode::End,
        ],
    );
    assert!(r.is_ok());
}

#[test]
fn validate_type_mismatch() {
    let module = ModuleContext::default();
    let locals = vec![];
    let r = validate(
        &module,
        &locals,
        BlockType::Value(ValueType::I64),
        vec![
            Opcode::I32Const(1),
            Opcode::I32Const(2),
            Opcode::I64Add,
            Opcode::End,
        ],
    );
    assert_eq!(r, Err(Error::TypeMismatch));
}

#[test]
fn validate_parent_frame_access() {
    let module = ModuleContext::default();
    let locals = vec![];
    let r = validate(
        &module,
        &locals,
        BlockType::NoResult,
        vec![
            Opcode::I32Const(1),
            Opcode::Block(BlockType::NoResult),
            Opcode::Drop,
            Opcode::End,
            Opcode::End,
        ],
    );
    assert_eq!(r, Err(Error::ParentFrameAccess));
}

#[test]
fn validate_alignment_too_large() {
    let module = ModuleContext::default();
    let locals = vec![];
    let r = validate(
        &module,
        &locals,
        BlockType::NoResult,
        vec![
            Opcode::I32Const(0),
            Opcode::I32Load(3, 0),
            Opcode::Drop,
            Opcode::End,
        ],
    );
    assert_eq!(r, Err(Error::AlignmentTooLarge));
}

#[test]
fn validate_missing_memory() {
    let module = ModuleContext::default();
    let locals = vec![];
    let r = validate(
        &module,
        &locals,
        BlockType::NoResult,
        vec![
            Opcode::I32Const(0),
            Opcode::I32Load(2, 0),
            Opcode::Drop,
            Opcode::End,
        ],
    );
    assert_eq!(r, Err(Error::MissingMemory));
}

#[test]
fn validate_misplaced_else() {
    let module = ModuleContext::default();
    let locals = vec![];
    let r = validate(
        &module,
        &locals,
        BlockType::NoResult,
        vec![Opcode::Else, Opcode::End],
    );
    assert_eq!(r, Err(Error::MisplacedElse));
}

#[test]
fn validate_dead_code_is_polymorphic() {
    let module = ModuleContext::default();
    let locals = vec![];
    // After `unreachable`, an i32.add with no operands still checks.
    let r = validate(
        &module,
        &locals,
        BlockType::Value(ValueType::I32),
        vec![Opcode::Unreachable, Opcode::I32Add, Opcode::End],
    );
    assert!(r.is_ok());
}

#[test]
fn validate_get_local() {
    let module = ModuleContext::default();
    let locals = vec![ValueType::I64];
    let r = validate(
        &module,
        &locals,
        BlockType::Value(ValueType::I64),
        vec![Opcode::GetLocal(0), Opcode::End],
    );
    assert!(r.is_ok());
    let r2 = validate(
        &module,
        &locals,
        BlockType::NoResult,
        vec![Opcode::GetLocal(1), Opcode::Drop, Opcode::End],
    );
    assert_eq!(r2, Err(Error::MissingLocal));
}

#[test]
fn validate_empty_body_rejected() {
    let module = ModuleContext::default();
    let locals = vec![];
    let r = validate(&module, &locals, BlockType::NoResult, vec![]);
    assert_eq!(r, Err(Error::EmptyFunctionBody));
}

#[test]
fn validate_if_without_else_needs_no_result() {
    let module = ModuleContext::default();
    let locals = vec![];
    let r = validate(
        &module,
        &locals,
        BlockType::NoResult,
        vec![
            Opcode::I32Const(1),
            Opcode::If(BlockType::Value(ValueType::I32)),
            Opcode::I32Const(2),
            Opcode::End,
            Opcode::Drop,
            Opcode::End,
        ],
    );
    assert_eq!(r, Err(Error::IfWithResultMissingElse));
}
