use sophon_wasm::elements::{MemoryType, TableType};
use sophon_wasm::interpreter::memory::MemoryInstance;
use sophon_wasm::interpreter::table::TableInstance;
use sophon_wasm::interpreter::value::RuntimeValue;
use sophon_wasm::interpreter::variable::{VariableInstance, VariableType};
use sophon_wasm::interpreter::Error;

#[test]
fn memory_out_of_bounds_after_grow_denied() {
    // A memory of one page that may never grow: growing fails, the page
    // count stays at one, and a read past the page is out of bounds.
    let mut memory = MemoryInstance::new(&MemoryType::new(1, Some(1))).unwrap();
    assert_eq!(memory.grow(1), Err(Error::MemoryGrowLimit));
    assert_eq!(memory.pages(), 1);
    assert_eq!(memory.get(65540, 4), Err(Error::MemoryOutOfBounds));
}

#[test]
fn memory_grow_returns_old_pages() {
    let mut memory = MemoryInstance::new(&MemoryType::new(1, Some(3))).unwrap();
    assert_eq!(memory.grow(2), Ok(1));
    assert_eq!(memory.pages(), 3);
    assert_eq!(memory.grow(1), Err(Error::MemoryGrowLimit));
}

#[test]
fn memory_read_write() {
    let mut memory = MemoryInstance::new(&MemoryType::new(1, None)).unwrap();
    memory.set(16, &vec![1, 2, 3, 4]).unwrap();
    assert_eq!(memory.get(15, 6).unwrap(), vec![0, 1, 2, 3, 4, 0]);
    assert_eq!(memory.set(65535, &vec![1, 2]), Err(Error::MemoryOutOfBounds));
}

#[test]
fn table_get_set() {
    let mut table = TableInstance::new(&TableType::new(4, None));
    assert_eq!(table.len(), 4);
    assert_eq!(table.get(0), Err(Error::TableElementEmpty));
    table.set(0, 17).unwrap();
    assert_eq!(table.get(0), Ok(17));
    assert_eq!(table.get(4), Err(Error::TableOutOfBounds));
    assert_eq!(table.set(4, 1), Err(Error::TableOutOfBounds));
}

#[test]
fn variable_set_rules() {
    let mut var = VariableInstance::new(
        true,
        VariableType::I32,
        RuntimeValue::I32(41),
    )
    .unwrap();
    assert_eq!(var.get(), RuntimeValue::I32(41));
    var.set(RuntimeValue::I32(42)).unwrap();
    assert_eq!(var.get(), RuntimeValue::I32(42));
    assert_eq!(var.set(RuntimeValue::I64(1)), Err(Error::VariableTypeMismatch));

    let mut frozen = VariableInstance::new(
        false,
        VariableType::I64,
        RuntimeValue::I64(7),
    )
    .unwrap();
    assert_eq!(frozen.set(RuntimeValue::I64(8)), Err(Error::VariableIsImmutable));
    assert_eq!(frozen.get(), RuntimeValue::I64(7));

    assert_eq!(
        VariableInstance::new(false, VariableType::F32, RuntimeValue::I32(0)).err(),
        Some(Error::VariableTypeMismatch)
    );
}
