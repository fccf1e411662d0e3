use sophon_wasm::builder::global::global;
use sophon_wasm::builder::import::import;
use sophon_wasm::builder::table::TableBuilder;
use sophon_wasm::elements::ValueType;

#[test]
fn global_example() {
    let entry = global().with_type(ValueType::I32).build();
    assert_eq!(entry.global_type().content_type(), ValueType::I32);
    assert_eq!(entry.global_type().is_mutable(), false);
}

#[test]
fn import_example() {
    let entry = import()
        .module("env")
        .field("memory")
        .external()
        .memory(256, Some(256))
        .build();

    assert_eq!(entry.module(), "env");
    assert_eq!(entry.field(), "memory");
}

#[test]
fn table_builder_limits() {
    let def = TableBuilder::new()
        .with_min(64)
        .with_max(Some(128))
        .with_element(0, vec![1, 2, 3])
        .build();
    assert_eq!(def.min, 64);
    assert_eq!(def.max, Some(128));
    assert_eq!(def.elements.len(), 1);
    assert_eq!(def.elements[0].values, vec![1, 2, 3]);
}
