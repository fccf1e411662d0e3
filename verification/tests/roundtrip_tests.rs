use sophon_wasm::elements::io::Reader;
use sophon_wasm::elements::{
    deserialize_buffer, deserialize_module, serialize, BlockType, CodeSection, CustomSection,
    DataSection, DataSegment, Deserialize, Error, Serialize, ExportEntry, ExportSection, Func, FuncBody,
    FunctionSection, FunctionType, GlobalEntry, GlobalSection, GlobalType, ImportEntry,
    ImportSection, InitExpr, Internal, Local, MemorySection, MemoryType, Module, Opcode, Opcodes,
    Section, TableSection, TableType, Type, TypeSection, ValueType, VarInt32, VarInt64, VarUint1,
    VarUint32, VarUint64, External,
};

fn sample_module() -> Module {
    let ft = FunctionType::new(vec![ValueType::I32], Some(ValueType::I32));
    Module::new(vec![
        Section::Type(TypeSection::with_types(vec![Type::Function(ft)])),
        Section::Import(ImportSection::with_entries(vec![ImportEntry::new(
            "env".to_string(),
            "memory".to_string(),
            External::Memory(MemoryType::new(1, Some(1))),
        )])),
        Section::Function(FunctionSection::with_entries(vec![Func::new(0)])),
        Section::Table(TableSection::with_entries(vec![TableType::new(2, None)])),
        Section::Memory(MemorySection::with_entries(vec![])),
        Section::Global(GlobalSection::with_entries(vec![GlobalEntry::new(
            GlobalType::new(ValueType::I64, true),
            InitExpr::new(vec![Opcode::I64Const(-5), Opcode::End]),
        )])),
        Section::Export(ExportSection::with_entries(vec![ExportEntry::new(
            "_call".to_string(),
            Internal::Function(0),
        )])),
        Section::Start(0),
        Section::Code(CodeSection::with_bodies(vec![FuncBody::new(
            vec![Local::new(1, ValueType::I64)],
            Opcodes::new(vec![
                Opcode::GetLocal(0),
                Opcode::I32Const(1),
                Opcode::I32Add,
                Opcode::End,
            ]),
        )])),
        Section::Data(DataSection::with_entries(vec![DataSegment::new(
            0,
            InitExpr::empty(),
            vec![9, 8, 7],
        )])),
        Section::Custom(CustomSection {
            name: "name".to_string(),
            payload: vec![1, 2, 3],
        }),
        Section::Unparsed { id: 0x20, payload: vec![5, 6] },
    ])
}

#[test]
fn module_round_trip() {
    let module = sample_module();
    let bytes = module.serialize();
    let decoded = deserialize_module(&bytes).expect("module to decode");
    assert_eq!(decoded.version(), 1);
    assert_eq!(decoded.sections().len(), module.sections().len());
    let bytes_again = decoded.serialize();
    assert_eq!(bytes, bytes_again);
}

#[test]
fn leb128_round_trips() {
    for v in [0u32, 1, 127, 128, 135, 8192, 624485, u32::MAX] {
        let mut buf = Vec::new();
        VarUint32(v).serialize(&mut buf);
        let mut reader = Reader::new(buf.as_slice());
        assert_eq!(VarUint32::deserialize(&mut reader).unwrap().0, v);
    }
    for v in [0i32, 1, -1, 63, 64, -64, -65, 8192, -8192, i32::MIN, i32::MAX] {
        let mut buf = Vec::new();
        VarInt32(v).serialize(&mut buf);
        let mut reader = Reader::new(buf.as_slice());
        assert_eq!(VarInt32::deserialize(&mut reader).unwrap().0, v);
    }
    for v in [0u64, 1, 127, 128, u64::MAX] {
        let mut buf = Vec::new();
        VarUint64(v).serialize(&mut buf);
        let mut reader = Reader::new(buf.as_slice());
        assert_eq!(VarUint64::deserialize(&mut reader).unwrap().0, v);
    }
    for v in [0i64, -1, 63, -64, i64::MIN, i64::MAX] {
        let mut buf = Vec::new();
        VarInt64(v).serialize(&mut buf);
        let mut reader = Reader::new(buf.as_slice());
        assert_eq!(VarInt64::deserialize(&mut reader).unwrap().0, v);
    }
}

#[test]
fn opcode_immediates_round_trip() {
    let section = CodeSection::with_bodies(vec![FuncBody::new(
        vec![],
        Opcodes::new(vec![
            Opcode::Block(BlockType::NoResult),
            Opcode::BrTable(vec![0, 1, 0], 1),
            Opcode::End,
            Opcode::CallIndirect(2, 0),
            Opcode::F32Const(0x4048F5C3),
            Opcode::F64Const(0x400921FB54442D18),
            Opcode::I32Load(2, 1024),
            Opcode::CurrentMemory(0),
            Opcode::End,
        ]),
    )]);
    let bytes = serialize(&section);
    let decoded: CodeSection = deserialize_buffer(&bytes).expect("code section to decode");
    assert_eq!(decoded.bodies()[0], section.bodies()[0]);
}

#[test]
fn error_invalid_magic() {
    let r = deserialize_module(&vec![0x01, 0x61, 0x73, 0x6d, 1, 0, 0, 0]);
    assert_eq!(r.err(), Some(Error::InvalidMagic));
}

#[test]
fn error_unsupported_version() {
    let r = deserialize_module(&vec![0x00, 0x61, 0x73, 0x6d, 2, 0, 0, 0]);
    assert_eq!(r.err(), Some(Error::UnsupportedVersion(2)));
}

#[test]
fn error_unexpected_eof() {
    let r = deserialize_module(&vec![0x00, 0x61]);
    assert_eq!(r.err(), Some(Error::UnexpectedEof));
}

#[test]
fn error_invalid_varuint1() {
    let mut reader = Reader::new(&[5u8]);
    assert_eq!(VarUint1::deserialize(&mut reader).err(), Some(Error::InvalidVarUint1(5)));
}

#[test]
fn error_invalid_varint32() {
    let mut reader = Reader::new(&[0x80u8, 0x80, 0x80, 0x80, 0x80, 0x00]);
    assert_eq!(VarInt32::deserialize(&mut reader).err(), Some(Error::InvalidVarInt32));
}

#[test]
fn error_invalid_varint64() {
    let bytes = [0x80u8; 11];
    let mut reader = Reader::new(&bytes);
    assert_eq!(VarInt64::deserialize(&mut reader).err(), Some(Error::InvalidVarInt64));
}

#[test]
fn error_non_utf8_string() {
    // A one-byte name that is not valid UTF-8.
    let mut reader = Reader::new(&[0x01u8, 0xff]);
    assert_eq!(String::deserialize(&mut reader).err(), Some(Error::NonUtf8String));
}

#[test]
fn error_unknown_value_type() {
    let mut reader = Reader::new(&[0x10u8]);
    assert_eq!(ValueType::deserialize(&mut reader).err(), Some(Error::UnknownValueType(0x10)));
}

#[test]
fn error_unknown_block_type() {
    let mut reader = Reader::new(&[0x10u8]);
    assert_eq!(BlockType::deserialize(&mut reader).err(), Some(Error::UnknownBlockType(0x10)));
}

#[test]
fn error_unknown_opcode() {
    let mut reader = Reader::new(&[0xffu8]);
    assert_eq!(Opcode::deserialize(&mut reader).err(), Some(Error::UnknownOpcode(0xff)));
}

#[test]
fn error_unknown_external_kind() {
    let mut reader = Reader::new(&[0x09u8]);
    assert_eq!(External::deserialize(&mut reader).err(), Some(Error::UnknownExternalKind(0x09)));
}

#[test]
fn error_unknown_internal_kind() {
    let mut reader = Reader::new(&[0x09u8, 0x00]);
    assert_eq!(Internal::deserialize(&mut reader).err(), Some(Error::UnknownInternalKind(0x09)));
}

#[test]
fn error_inconsistent_length() {
    // A custom section whose declared length is shorter than its name.
    let mut reader = Reader::new(&[0x01u8, 0x03, 0x61, 0x62, 0x63]);
    assert_eq!(
        CustomSection::deserialize(&mut reader).err(),
        Some(Error::InconsistentLength)
    );
}

#[test]
fn custom_section_round_trip() {
    let section = CustomSection {
        name: "custom".to_string(),
        payload: vec![10, 20, 30],
    };
    let bytes = serialize(&section);
    let decoded: CustomSection = deserialize_buffer(&bytes).expect("custom section to decode");
    assert_eq!(decoded.name(), "custom");
    assert_eq!(decoded.payload(), &vec![10, 20, 30]);
}
