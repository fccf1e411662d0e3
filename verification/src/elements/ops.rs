//! The MVP instruction set: the opcode AST and its binary codec.

use vstd::prelude::*;
use crate::elements::error::Error;
use crate::elements::io::{Reader, lemma_reader_advance, lemma_remaining_len};
use crate::elements::primitives::{
    enc_leb_i32, enc_leb_i64, enc_leb_u32, enc_u32_counted, lemma_enc_leb_i32_len,
    lemma_enc_leb_i64_len, lemma_enc_leb_u32_len, lemma_leb_i32_round_trip,
    lemma_leb_i64_round_trip, lemma_leb_u32_round_trip, read_leb_i32, read_leb_i64, read_leb_u32,
    read_u32_counted, write_leb_i32, write_leb_i64, write_leb_u32, write_u32_counted,
};
use crate::elements::types::BlockType;
use crate::elements::traits::{Deserialize, Serialize, enc_list, lemma_enc_list_first, lemma_enc_list_take_succ, list_wf};
use crate::elements::primitives::list_deq;

verus! {

/// One instruction of the MVP instruction set.
///
/// Control instructions carry their block type, branches their label index,
/// memory instructions their alignment hint and static offset, and constants
/// their literal (floats as raw bit patterns).
#[derive(Clone, Debug, PartialEq)]
pub enum Opcode {
    Block(BlockType),
    Loop(BlockType),
    If(BlockType),
    Br(u32),
    BrIf(u32),
    Call(u32),
    GetLocal(u32),
    SetLocal(u32),
    TeeLocal(u32),
    GetGlobal(u32),
    SetGlobal(u32),
    BrTable(Vec<u32>, u32),
    CallIndirect(u32, u8),
    I32Load(u32, u32),
    I64Load(u32, u32),
    F32Load(u32, u32),
    F64Load(u32, u32),
    I32Load8S(u32, u32),
    I32Load8U(u32, u32),
    I32Load16S(u32, u32),
    I32Load16U(u32, u32),
    I64Load8S(u32, u32),
    I64Load8U(u32, u32),
    I64Load16S(u32, u32),
    I64Load16U(u32, u32),
    I64Load32S(u32, u32),
    I64Load32U(u32, u32),
    I32Store(u32, u32),
    I64Store(u32, u32),
    F32Store(u32, u32),
    F64Store(u32, u32),
    I32Store8(u32, u32),
    I32Store16(u32, u32),
    I64Store8(u32, u32),
    I64Store16(u32, u32),
    I64Store32(u32, u32),
    CurrentMemory(u8),
    GrowMemory(u8),
    I32Const(i32),
    I64Const(i64),
    F32Const(u32),
    F64Const(u64),
    Unreachable,
    Nop,
    Else,
    End,
    Return,
    Drop,
    Select,
    I32Eqz,
    I32Eq,
    I32Ne,
    I32LtS,
    I32LtU,
    I32GtS,
    I32GtU,
    I32LeS,
    I32LeU,
    I32GeS,
    I32GeU,
    I64Eqz,
    I64Eq,
    I64Ne,
    I64LtS,
    I64LtU,
    I64GtS,
    I64GtU,
    I64LeS,
    I64LeU,
    I64GeS,
    I64GeU,
    F32Eq,
    F32Ne,
    F32Lt,
    F32Gt,
    F32Le,
    F32Ge,
    F64Eq,
    F64Ne,
    F64Lt,
    F64Gt,
    F64Le,
    F64Ge,
    I32Clz,
    I32Ctz,
    I32Popcnt,
    I32Add,
    I32Sub,
    I32Mul,
    I32DivS,
    I32DivU,
    I32RemS,
    I32RemU,
    I32And,
    I32Or,
    I32Xor,
    I32Shl,
    I32ShrS,
    I32ShrU,
    I32Rotl,
    I32Rotr,
    I64Clz,
    I64Ctz,
    I64Popcnt,
    I64Add,
    I64Sub,
    I64Mul,
    I64DivS,
    I64DivU,
    I64RemS,
    I64RemU,
    I64And,
    I64Or,
    I64Xor,
    I64Shl,
    I64ShrS,
    I64ShrU,
    I64Rotl,
    I64Rotr,
    F32Abs,
    F32Neg,
    F32Ceil,
    F32Floor,
    F32Trunc,
    F32Nearest,
    F32Sqrt,
    F32Add,
    F32Sub,
    F32Mul,
    F32Div,
    F32Min,
    F32Max,
    F32Copysign,
    F64Abs,
    F64Neg,
    F64Ceil,
    F64Floor,
    F64Trunc,
    F64Nearest,
    F64Sqrt,
    F64Add,
    F64Sub,
    F64Mul,
    F64Div,
    F64Min,
    F64Max,
    F64Copysign,
    I32WarpI64,
    I32TruncSF32,
    I32TruncUF32,
    I32TruncSF64,
    I32TruncUF64,
    I64ExtendSI32,
    I64ExtendUI32,
    I64TruncSF32,
    I64TruncUF32,
    I64TruncSF64,
    I64TruncUF64,
    F32ConvertSI32,
    F32ConvertUI32,
    F32ConvertSI64,
    F32ConvertUI64,
    F32DemoteF64,
    F64ConvertSI32,
    F64ConvertUI32,
    F64ConvertSI64,
    F64ConvertUI64,
    F64PromoteF32,
    I32ReinterpretF32,
    I64ReinterpretF64,
    F32ReinterpretI32,
    F64ReinterpretI64,
}

/// The leading byte of an instruction's encoding.
pub open spec fn op_first_byte(op: Opcode) -> u8 {
    match op {
        Opcode::Block(_) => 0x2,
        Opcode::Loop(_) => 0x3,
        Opcode::If(_) => 0x4,
        Opcode::Br(_) => 0xc,
        Opcode::BrIf(_) => 0xd,
        Opcode::Call(_) => 0x10,
        Opcode::GetLocal(_) => 0x20,
        Opcode::SetLocal(_) => 0x21,
        Opcode::TeeLocal(_) => 0x22,
        Opcode::GetGlobal(_) => 0x23,
        Opcode::SetGlobal(_) => 0x24,
        Opcode::BrTable(_, _) => 0x0e,
        Opcode::CallIndirect(_, _) => 0x11,
        Opcode::I32Load(_, _) => 0x28,
        Opcode::I64Load(_, _) => 0x29,
        Opcode::F32Load(_, _) => 0x2a,
        Opcode::F64Load(_, _) => 0x2b,
        Opcode::I32Load8S(_, _) => 0x2c,
        Opcode::I32Load8U(_, _) => 0x2d,
        Opcode::I32Load16S(_, _) => 0x2e,
        Opcode::I32Load16U(_, _) => 0x2f,
        Opcode::I64Load8S(_, _) => 0x30,
        Opcode::I64Load8U(_, _) => 0x31,
        Opcode::I64Load16S(_, _) => 0x32,
        Opcode::I64Load16U(_, _) => 0x33,
        Opcode::I64Load32S(_, _) => 0x34,
        Opcode::I64Load32U(_, _) => 0x35,
        Opcode::I32Store(_, _) => 0x36,
        Opcode::I64Store(_, _) => 0x37,
        Opcode::F32Store(_, _) => 0x38,
        Opcode::F64Store(_, _) => 0x39,
        Opcode::I32Store8(_, _) => 0x3a,
        Opcode::I32Store16(_, _) => 0x3b,
        Opcode::I64Store8(_, _) => 0x3c,
        Opcode::I64Store16(_, _) => 0x3d,
        Opcode::I64Store32(_, _) => 0x3e,
        Opcode::CurrentMemory(_) => 0x3f,
        Opcode::GrowMemory(_) => 0x40,
        Opcode::I32Const(_) => 0x41,
        Opcode::I64Const(_) => 0x42,
        Opcode::F32Const(_) => 0x43,
        Opcode::F64Const(_) => 0x44,
        Opcode::Unreachable => 0x0,
        Opcode::Nop => 0x1,
        Opcode::Else => 0x5,
        Opcode::End => 0xb,
        Opcode::Return => 0xf,
        Opcode::Drop => 0x1a,
        Opcode::Select => 0x1b,
        Opcode::I32Eqz => 0x45,
        Opcode::I32Eq => 0x46,
        Opcode::I32Ne => 0x47,
        Opcode::I32LtS => 0x48,
        Opcode::I32LtU => 0x49,
        Opcode::I32GtS => 0x4a,
        Opcode::I32GtU => 0x4b,
        Opcode::I32LeS => 0x4c,
        Opcode::I32LeU => 0x4d,
        Opcode::I32GeS => 0x4e,
        Opcode::I32GeU => 0x4f,
        Opcode::I64Eqz => 0x50,
        Opcode::I64Eq => 0x51,
        Opcode::I64Ne => 0x52,
        Opcode::I64LtS => 0x53,
        Opcode::I64LtU => 0x54,
        Opcode::I64GtS => 0x55,
        Opcode::I64GtU => 0x56,
        Opcode::I64LeS => 0x57,
        Opcode::I64LeU => 0x58,
        Opcode::I64GeS => 0x59,
        Opcode::I64GeU => 0x5a,
        Opcode::F32Eq => 0x5b,
        Opcode::F32Ne => 0x5c,
        Opcode::F32Lt => 0x5d,
        Opcode::F32Gt => 0x5e,
        Opcode::F32Le => 0x5f,
        Opcode::F32Ge => 0x60,
        Opcode::F64Eq => 0x61,
        Opcode::F64Ne => 0x62,
        Opcode::F64Lt => 0x63,
        Opcode::F64Gt => 0x64,
        Opcode::F64Le => 0x65,
        Opcode::F64Ge => 0x66,
        Opcode::I32Clz => 0x67,
        Opcode::I32Ctz => 0x68,
        Opcode::I32Popcnt => 0x69,
        Opcode::I32Add => 0x6a,
        Opcode::I32Sub => 0x6b,
        Opcode::I32Mul => 0x6c,
        Opcode::I32DivS => 0x6d,
        Opcode::I32DivU => 0x6e,
        Opcode::I32RemS => 0x6f,
        Opcode::I32RemU => 0x70,
        Opcode::I32And => 0x71,
        Opcode::I32Or => 0x72,
        Opcode::I32Xor => 0x73,
        Opcode::I32Shl => 0x74,
        Opcode::I32ShrS => 0x75,
        Opcode::I32ShrU => 0x76,
        Opcode::I32Rotl => 0x77,
        Opcode::I32Rotr => 0x78,
        Opcode::I64Clz => 0x79,
        Opcode::I64Ctz => 0x7a,
        Opcode::I64Popcnt => 0x7b,
        Opcode::I64Add => 0x7c,
        Opcode::I64Sub => 0x7d,
        Opcode::I64Mul => 0x7e,
        Opcode::I64DivS => 0x7f,
        Opcode::I64DivU => 0x80,
        Opcode::I64RemS => 0x81,
        Opcode::I64RemU => 0x82,
        Opcode::I64And => 0x83,
        Opcode::I64Or => 0x84,
        Opcode::I64Xor => 0x85,
        Opcode::I64Shl => 0x86,
        Opcode::I64ShrS => 0x87,
        Opcode::I64ShrU => 0x88,
        Opcode::I64Rotl => 0x89,
        Opcode::I64Rotr => 0x8a,
        Opcode::F32Abs => 0x8b,
        Opcode::F32Neg => 0x8c,
        Opcode::F32Ceil => 0x8d,
        Opcode::F32Floor => 0x8e,
        Opcode::F32Trunc => 0x8f,
        Opcode::F32Nearest => 0x90,
        Opcode::F32Sqrt => 0x91,
        Opcode::F32Add => 0x92,
        Opcode::F32Sub => 0x93,
        Opcode::F32Mul => 0x94,
        Opcode::F32Div => 0x95,
        Opcode::F32Min => 0x96,
        Opcode::F32Max => 0x97,
        Opcode::F32Copysign => 0x98,
        Opcode::F64Abs => 0x99,
        Opcode::F64Neg => 0x9a,
        Opcode::F64Ceil => 0x9b,
        Opcode::F64Floor => 0x9c,
        Opcode::F64Trunc => 0x9d,
        Opcode::F64Nearest => 0x9e,
        Opcode::F64Sqrt => 0x9f,
        Opcode::F64Add => 0xa0,
        Opcode::F64Sub => 0xa1,
        Opcode::F64Mul => 0xa2,
        Opcode::F64Div => 0xa3,
        Opcode::F64Min => 0xa4,
        Opcode::F64Max => 0xa5,
        Opcode::F64Copysign => 0xa6,
        Opcode::I32WarpI64 => 0xa7,
        Opcode::I32TruncSF32 => 0xa8,
        Opcode::I32TruncUF32 => 0xa9,
        Opcode::I32TruncSF64 => 0xaa,
        Opcode::I32TruncUF64 => 0xab,
        Opcode::I64ExtendSI32 => 0xac,
        Opcode::I64ExtendUI32 => 0xad,
        Opcode::I64TruncSF32 => 0xae,
        Opcode::I64TruncUF32 => 0xaf,
        Opcode::I64TruncSF64 => 0xb0,
        Opcode::I64TruncUF64 => 0xb1,
        Opcode::F32ConvertSI32 => 0xb2,
        Opcode::F32ConvertUI32 => 0xb3,
        Opcode::F32ConvertSI64 => 0xb4,
        Opcode::F32ConvertUI64 => 0xb5,
        Opcode::F32DemoteF64 => 0xb6,
        Opcode::F64ConvertSI32 => 0xb7,
        Opcode::F64ConvertUI32 => 0xb8,
        Opcode::F64ConvertSI64 => 0xb9,
        Opcode::F64ConvertUI64 => 0xba,
        Opcode::F64PromoteF32 => 0xbb,
        Opcode::I32ReinterpretF32 => 0xbc,
        Opcode::I64ReinterpretF64 => 0xbd,
        Opcode::F32ReinterpretI32 => 0xbe,
        Opcode::F64ReinterpretI64 => 0xbf,
    }
}

/// The encoding of an instruction's immediates, empty for most.
pub open spec fn op_imm_enc(op: Opcode) -> Seq<u8> {
    match op {
        Opcode::Block(bt) => bt.enc(),
        Opcode::Loop(bt) => bt.enc(),
        Opcode::If(bt) => bt.enc(),
        Opcode::Br(x) => enc_leb_u32(x),
        Opcode::BrIf(x) => enc_leb_u32(x),
        Opcode::Call(x) => enc_leb_u32(x),
        Opcode::GetLocal(x) => enc_leb_u32(x),
        Opcode::SetLocal(x) => enc_leb_u32(x),
        Opcode::TeeLocal(x) => enc_leb_u32(x),
        Opcode::GetGlobal(x) => enc_leb_u32(x),
        Opcode::SetGlobal(x) => enc_leb_u32(x),
        Opcode::BrTable(t, d) => enc_u32_counted(t@) + enc_leb_u32(d),
        Opcode::CallIndirect(x, r) => enc_leb_u32(x) + seq![r],
        Opcode::I32Load(a, o) => enc_leb_u32(a) + enc_leb_u32(o),
        Opcode::I64Load(a, o) => enc_leb_u32(a) + enc_leb_u32(o),
        Opcode::F32Load(a, o) => enc_leb_u32(a) + enc_leb_u32(o),
        Opcode::F64Load(a, o) => enc_leb_u32(a) + enc_leb_u32(o),
        Opcode::I32Load8S(a, o) => enc_leb_u32(a) + enc_leb_u32(o),
        Opcode::I32Load8U(a, o) => enc_leb_u32(a) + enc_leb_u32(o),
        Opcode::I32Load16S(a, o) => enc_leb_u32(a) + enc_leb_u32(o),
        Opcode::I32Load16U(a, o) => enc_leb_u32(a) + enc_leb_u32(o),
        Opcode::I64Load8S(a, o) => enc_leb_u32(a) + enc_leb_u32(o),
        Opcode::I64Load8U(a, o) => enc_leb_u32(a) + enc_leb_u32(o),
        Opcode::I64Load16S(a, o) => enc_leb_u32(a) + enc_leb_u32(o),
        Opcode::I64Load16U(a, o) => enc_leb_u32(a) + enc_leb_u32(o),
        Opcode::I64Load32S(a, o) => enc_leb_u32(a) + enc_leb_u32(o),
        Opcode::I64Load32U(a, o) => enc_leb_u32(a) + enc_leb_u32(o),
        Opcode::I32Store(a, o) => enc_leb_u32(a) + enc_leb_u32(o),
        Opcode::I64Store(a, o) => enc_leb_u32(a) + enc_leb_u32(o),
        Opcode::F32Store(a, o) => enc_leb_u32(a) + enc_leb_u32(o),
        Opcode::F64Store(a, o) => enc_leb_u32(a) + enc_leb_u32(o),
        Opcode::I32Store8(a, o) => enc_leb_u32(a) + enc_leb_u32(o),
        Opcode::I32Store16(a, o) => enc_leb_u32(a) + enc_leb_u32(o),
        Opcode::I64Store8(a, o) => enc_leb_u32(a) + enc_leb_u32(o),
        Opcode::I64Store16(a, o) => enc_leb_u32(a) + enc_leb_u32(o),
        Opcode::I64Store32(a, o) => enc_leb_u32(a) + enc_leb_u32(o),
        Opcode::CurrentMemory(r) => seq![r],
        Opcode::GrowMemory(r) => seq![r],
        Opcode::I32Const(x) => enc_leb_i32(x),
        Opcode::I64Const(x) => enc_leb_i64(x),
        Opcode::F32Const(x) => vstd::bytes::spec_u32_to_le_bytes(x),
        Opcode::F64Const(x) => vstd::bytes::spec_u64_to_le_bytes(x),
        _ => Seq::empty(),
    }
}

/// The instruction a byte names, among those that carry no immediate.
pub open spec fn spec_simple_opcode(b: u8) -> Option<Opcode> {
    match b {
        0x0 => Some(Opcode::Unreachable),
        0x1 => Some(Opcode::Nop),
        0x5 => Some(Opcode::Else),
        0xb => Some(Opcode::End),
        0xf => Some(Opcode::Return),
        0x1a => Some(Opcode::Drop),
        0x1b => Some(Opcode::Select),
        0x45 => Some(Opcode::I32Eqz),
        0x46 => Some(Opcode::I32Eq),
        0x47 => Some(Opcode::I32Ne),
        0x48 => Some(Opcode::I32LtS),
        0x49 => Some(Opcode::I32LtU),
        0x4a => Some(Opcode::I32GtS),
        0x4b => Some(Opcode::I32GtU),
        0x4c => Some(Opcode::I32LeS),
        0x4d => Some(Opcode::I32LeU),
        0x4e => Some(Opcode::I32GeS),
        0x4f => Some(Opcode::I32GeU),
        0x50 => Some(Opcode::I64Eqz),
        0x51 => Some(Opcode::I64Eq),
        0x52 => Some(Opcode::I64Ne),
        0x53 => Some(Opcode::I64LtS),
        0x54 => Some(Opcode::I64LtU),
        0x55 => Some(Opcode::I64GtS),
        0x56 => Some(Opcode::I64GtU),
        0x57 => Some(Opcode::I64LeS),
        0x58 => Some(Opcode::I64LeU),
        0x59 => Some(Opcode::I64GeS),
        0x5a => Some(Opcode::I64GeU),
        0x5b => Some(Opcode::F32Eq),
        0x5c => Some(Opcode::F32Ne),
        0x5d => Some(Opcode::F32Lt),
        0x5e => Some(Opcode::F32Gt),
        0x5f => Some(Opcode::F32Le),
        0x60 => Some(Opcode::F32Ge),
        0x61 => Some(Opcode::F64Eq),
        0x62 => Some(Opcode::F64Ne),
        0x63 => Some(Opcode::F64Lt),
        0x64 => Some(Opcode::F64Gt),
        0x65 => Some(Opcode::F64Le),
        0x66 => Some(Opcode::F64Ge),
        0x67 => Some(Opcode::I32Clz),
        0x68 => Some(Opcode::I32Ctz),
        0x69 => Some(Opcode::I32Popcnt),
        0x6a => Some(Opcode::I32Add),
        0x6b => Some(Opcode::I32Sub),
        0x6c => Some(Opcode::I32Mul),
        0x6d => Some(Opcode::I32DivS),
        0x6e => Some(Opcode::I32DivU),
        0x6f => Some(Opcode::I32RemS),
        0x70 => Some(Opcode::I32RemU),
        0x71 => Some(Opcode::I32And),
        0x72 => Some(Opcode::I32Or),
        0x73 => Some(Opcode::I32Xor),
        0x74 => Some(Opcode::I32Shl),
        0x75 => Some(Opcode::I32ShrS),
        0x76 => Some(Opcode::I32ShrU),
        0x77 => Some(Opcode::I32Rotl),
        0x78 => Some(Opcode::I32Rotr),
        0x79 => Some(Opcode::I64Clz),
        0x7a => Some(Opcode::I64Ctz),
        0x7b => Some(Opcode::I64Popcnt),
        0x7c => Some(Opcode::I64Add),
        0x7d => Some(Opcode::I64Sub),
        0x7e => Some(Opcode::I64Mul),
        0x7f => Some(Opcode::I64DivS),
        0x80 => Some(Opcode::I64DivU),
        0x81 => Some(Opcode::I64RemS),
        0x82 => Some(Opcode::I64RemU),
        0x83 => Some(Opcode::I64And),
        0x84 => Some(Opcode::I64Or),
        0x85 => Some(Opcode::I64Xor),
        0x86 => Some(Opcode::I64Shl),
        0x87 => Some(Opcode::I64ShrS),
        0x88 => Some(Opcode::I64ShrU),
        0x89 => Some(Opcode::I64Rotl),
        0x8a => Some(Opcode::I64Rotr),
        0x8b => Some(Opcode::F32Abs),
        0x8c => Some(Opcode::F32Neg),
        0x8d => Some(Opcode::F32Ceil),
        0x8e => Some(Opcode::F32Floor),
        0x8f => Some(Opcode::F32Trunc),
        0x90 => Some(Opcode::F32Nearest),
        0x91 => Some(Opcode::F32Sqrt),
        0x92 => Some(Opcode::F32Add),
        0x93 => Some(Opcode::F32Sub),
        0x94 => Some(Opcode::F32Mul),
        0x95 => Some(Opcode::F32Div),
        0x96 => Some(Opcode::F32Min),
        0x97 => Some(Opcode::F32Max),
        0x98 => Some(Opcode::F32Copysign),
        0x99 => Some(Opcode::F64Abs),
        0x9a => Some(Opcode::F64Neg),
        0x9b => Some(Opcode::F64Ceil),
        0x9c => Some(Opcode::F64Floor),
        0x9d => Some(Opcode::F64Trunc),
        0x9e => Some(Opcode::F64Nearest),
        0x9f => Some(Opcode::F64Sqrt),
        0xa0 => Some(Opcode::F64Add),
        0xa1 => Some(Opcode::F64Sub),
        0xa2 => Some(Opcode::F64Mul),
        0xa3 => Some(Opcode::F64Div),
        0xa4 => Some(Opcode::F64Min),
        0xa5 => Some(Opcode::F64Max),
        0xa6 => Some(Opcode::F64Copysign),
        0xa7 => Some(Opcode::I32WarpI64),
        0xa8 => Some(Opcode::I32TruncSF32),
        0xa9 => Some(Opcode::I32TruncUF32),
        0xaa => Some(Opcode::I32TruncSF64),
        0xab => Some(Opcode::I32TruncUF64),
        0xac => Some(Opcode::I64ExtendSI32),
        0xad => Some(Opcode::I64ExtendUI32),
        0xae => Some(Opcode::I64TruncSF32),
        0xaf => Some(Opcode::I64TruncUF32),
        0xb0 => Some(Opcode::I64TruncSF64),
        0xb1 => Some(Opcode::I64TruncUF64),
        0xb2 => Some(Opcode::F32ConvertSI32),
        0xb3 => Some(Opcode::F32ConvertUI32),
        0xb4 => Some(Opcode::F32ConvertSI64),
        0xb5 => Some(Opcode::F32ConvertUI64),
        0xb6 => Some(Opcode::F32DemoteF64),
        0xb7 => Some(Opcode::F64ConvertSI32),
        0xb8 => Some(Opcode::F64ConvertUI32),
        0xb9 => Some(Opcode::F64ConvertSI64),
        0xba => Some(Opcode::F64ConvertUI64),
        0xbb => Some(Opcode::F64PromoteF32),
        0xbc => Some(Opcode::I32ReinterpretF32),
        0xbd => Some(Opcode::I64ReinterpretF64),
        0xbe => Some(Opcode::F32ReinterpretI32),
        0xbf => Some(Opcode::F64ReinterpretI64),
        _ => None,
    }
}

/// Decode a byte as an instruction without immediates.
fn simple_opcode(b: u8) -> (r: Option<Opcode>)
    ensures
        r == spec_simple_opcode(b),
{
    match b {
        0x0 => Some(Opcode::Unreachable),
        0x1 => Some(Opcode::Nop),
        0x5 => Some(Opcode::Else),
        0xb => Some(Opcode::End),
        0xf => Some(Opcode::Return),
        0x1a => Some(Opcode::Drop),
        0x1b => Some(Opcode::Select),
        0x45 => Some(Opcode::I32Eqz),
        0x46 => Some(Opcode::I32Eq),
        0x47 => Some(Opcode::I32Ne),
        0x48 => Some(Opcode::I32LtS),
        0x49 => Some(Opcode::I32LtU),
        0x4a => Some(Opcode::I32GtS),
        0x4b => Some(Opcode::I32GtU),
        0x4c => Some(Opcode::I32LeS),
        0x4d => Some(Opcode::I32LeU),
        0x4e => Some(Opcode::I32GeS),
        0x4f => Some(Opcode::I32GeU),
        0x50 => Some(Opcode::I64Eqz),
        0x51 => Some(Opcode::I64Eq),
        0x52 => Some(Opcode::I64Ne),
        0x53 => Some(Opcode::I64LtS),
        0x54 => Some(Opcode::I64LtU),
        0x55 => Some(Opcode::I64GtS),
        0x56 => Some(Opcode::I64GtU),
        0x57 => Some(Opcode::I64LeS),
        0x58 => Some(Opcode::I64LeU),
        0x59 => Some(Opcode::I64GeS),
        0x5a => Some(Opcode::I64GeU),
        0x5b => Some(Opcode::F32Eq),
        0x5c => Some(Opcode::F32Ne),
        0x5d => Some(Opcode::F32Lt),
        0x5e => Some(Opcode::F32Gt),
        0x5f => Some(Opcode::F32Le),
        0x60 => Some(Opcode::F32Ge),
        0x61 => Some(Opcode::F64Eq),
        0x62 => Some(Opcode::F64Ne),
        0x63 => Some(Opcode::F64Lt),
        0x64 => Some(Opcode::F64Gt),
        0x65 => Some(Opcode::F64Le),
        0x66 => Some(Opcode::F64Ge),
        0x67 => Some(Opcode::I32Clz),
        0x68 => Some(Opcode::I32Ctz),
        0x69 => Some(Opcode::I32Popcnt),
        0x6a => Some(Opcode::I32Add),
        0x6b => Some(Opcode::I32Sub),
        0x6c => Some(Opcode::I32Mul),
        0x6d => Some(Opcode::I32DivS),
        0x6e => Some(Opcode::I32DivU),
        0x6f => Some(Opcode::I32RemS),
        0x70 => Some(Opcode::I32RemU),
        0x71 => Some(Opcode::I32And),
        0x72 => Some(Opcode::I32Or),
        0x73 => Some(Opcode::I32Xor),
        0x74 => Some(Opcode::I32Shl),
        0x75 => Some(Opcode::I32ShrS),
        0x76 => Some(Opcode::I32ShrU),
        0x77 => Some(Opcode::I32Rotl),
        0x78 => Some(Opcode::I32Rotr),
        0x79 => Some(Opcode::I64Clz),
        0x7a => Some(Opcode::I64Ctz),
        0x7b => Some(Opcode::I64Popcnt),
        0x7c => Some(Opcode::I64Add),
        0x7d => Some(Opcode::I64Sub),
        0x7e => Some(Opcode::I64Mul),
        0x7f => Some(Opcode::I64DivS),
        0x80 => Some(Opcode::I64DivU),
        0x81 => Some(Opcode::I64RemS),
        0x82 => Some(Opcode::I64RemU),
        0x83 => Some(Opcode::I64And),
        0x84 => Some(Opcode::I64Or),
        0x85 => Some(Opcode::I64Xor),
        0x86 => Some(Opcode::I64Shl),
        0x87 => Some(Opcode::I64ShrS),
        0x88 => Some(Opcode::I64ShrU),
        0x89 => Some(Opcode::I64Rotl),
        0x8a => Some(Opcode::I64Rotr),
        0x8b => Some(Opcode::F32Abs),
        0x8c => Some(Opcode::F32Neg),
        0x8d => Some(Opcode::F32Ceil),
        0x8e => Some(Opcode::F32Floor),
        0x8f => Some(Opcode::F32Trunc),
        0x90 => Some(Opcode::F32Nearest),
        0x91 => Some(Opcode::F32Sqrt),
        0x92 => Some(Opcode::F32Add),
        0x93 => Some(Opcode::F32Sub),
        0x94 => Some(Opcode::F32Mul),
        0x95 => Some(Opcode::F32Div),
        0x96 => Some(Opcode::F32Min),
        0x97 => Some(Opcode::F32Max),
        0x98 => Some(Opcode::F32Copysign),
        0x99 => Some(Opcode::F64Abs),
        0x9a => Some(Opcode::F64Neg),
        0x9b => Some(Opcode::F64Ceil),
        0x9c => Some(Opcode::F64Floor),
        0x9d => Some(Opcode::F64Trunc),
        0x9e => Some(Opcode::F64Nearest),
        0x9f => Some(Opcode::F64Sqrt),
        0xa0 => Some(Opcode::F64Add),
        0xa1 => Some(Opcode::F64Sub),
        0xa2 => Some(Opcode::F64Mul),
        0xa3 => Some(Opcode::F64Div),
        0xa4 => Some(Opcode::F64Min),
        0xa5 => Some(Opcode::F64Max),
        0xa6 => Some(Opcode::F64Copysign),
        0xa7 => Some(Opcode::I32WarpI64),
        0xa8 => Some(Opcode::I32TruncSF32),
        0xa9 => Some(Opcode::I32TruncUF32),
        0xaa => Some(Opcode::I32TruncSF64),
        0xab => Some(Opcode::I32TruncUF64),
        0xac => Some(Opcode::I64ExtendSI32),
        0xad => Some(Opcode::I64ExtendUI32),
        0xae => Some(Opcode::I64TruncSF32),
        0xaf => Some(Opcode::I64TruncUF32),
        0xb0 => Some(Opcode::I64TruncSF64),
        0xb1 => Some(Opcode::I64TruncUF64),
        0xb2 => Some(Opcode::F32ConvertSI32),
        0xb3 => Some(Opcode::F32ConvertUI32),
        0xb4 => Some(Opcode::F32ConvertSI64),
        0xb5 => Some(Opcode::F32ConvertUI64),
        0xb6 => Some(Opcode::F32DemoteF64),
        0xb7 => Some(Opcode::F64ConvertSI32),
        0xb8 => Some(Opcode::F64ConvertUI32),
        0xb9 => Some(Opcode::F64ConvertSI64),
        0xba => Some(Opcode::F64ConvertUI64),
        0xbb => Some(Opcode::F64PromoteF32),
        0xbc => Some(Opcode::I32ReinterpretF32),
        0xbd => Some(Opcode::I64ReinterpretF64),
        0xbe => Some(Opcode::F32ReinterpretI32),
        0xbf => Some(Opcode::F64ReinterpretI64),
        _ => None,
    }
}

impl Opcode {
    /// The leading byte of this instruction's encoding.
    pub fn opcode_byte(&self) -> (b: u8)
        ensures
            b == op_first_byte(*self),
    {
        match self {
            Opcode::Block(_) => 0x2,
            Opcode::Loop(_) => 0x3,
            Opcode::If(_) => 0x4,
            Opcode::Br(_) => 0xc,
            Opcode::BrIf(_) => 0xd,
            Opcode::Call(_) => 0x10,
            Opcode::GetLocal(_) => 0x20,
            Opcode::SetLocal(_) => 0x21,
            Opcode::TeeLocal(_) => 0x22,
            Opcode::GetGlobal(_) => 0x23,
            Opcode::SetGlobal(_) => 0x24,
            Opcode::BrTable(_, _) => 0x0e,
            Opcode::CallIndirect(_, _) => 0x11,
            Opcode::I32Load(_, _) => 0x28,
            Opcode::I64Load(_, _) => 0x29,
            Opcode::F32Load(_, _) => 0x2a,
            Opcode::F64Load(_, _) => 0x2b,
            Opcode::I32Load8S(_, _) => 0x2c,
            Opcode::I32Load8U(_, _) => 0x2d,
            Opcode::I32Load16S(_, _) => 0x2e,
            Opcode::I32Load16U(_, _) => 0x2f,
            Opcode::I64Load8S(_, _) => 0x30,
            Opcode::I64Load8U(_, _) => 0x31,
            Opcode::I64Load16S(_, _) => 0x32,
            Opcode::I64Load16U(_, _) => 0x33,
            Opcode::I64Load32S(_, _) => 0x34,
            Opcode::I64Load32U(_, _) => 0x35,
            Opcode::I32Store(_, _) => 0x36,
            Opcode::I64Store(_, _) => 0x37,
            Opcode::F32Store(_, _) => 0x38,
            Opcode::F64Store(_, _) => 0x39,
            Opcode::I32Store8(_, _) => 0x3a,
            Opcode::I32Store16(_, _) => 0x3b,
            Opcode::I64Store8(_, _) => 0x3c,
            Opcode::I64Store16(_, _) => 0x3d,
            Opcode::I64Store32(_, _) => 0x3e,
            Opcode::CurrentMemory(_) => 0x3f,
            Opcode::GrowMemory(_) => 0x40,
            Opcode::I32Const(_) => 0x41,
            Opcode::I64Const(_) => 0x42,
            Opcode::F32Const(_) => 0x43,
            Opcode::F64Const(_) => 0x44,
            Opcode::Unreachable => 0x0,
            Opcode::Nop => 0x1,
            Opcode::Else => 0x5,
            Opcode::End => 0xb,
            Opcode::Return => 0xf,
            Opcode::Drop => 0x1a,
            Opcode::Select => 0x1b,
            Opcode::I32Eqz => 0x45,
            Opcode::I32Eq => 0x46,
            Opcode::I32Ne => 0x47,
            Opcode::I32LtS => 0x48,
            Opcode::I32LtU => 0x49,
            Opcode::I32GtS => 0x4a,
            Opcode::I32GtU => 0x4b,
            Opcode::I32LeS => 0x4c,
            Opcode::I32LeU => 0x4d,
            Opcode::I32GeS => 0x4e,
            Opcode::I32GeU => 0x4f,
            Opcode::I64Eqz => 0x50,
            Opcode::I64Eq => 0x51,
            Opcode::I64Ne => 0x52,
            Opcode::I64LtS => 0x53,
            Opcode::I64LtU => 0x54,
            Opcode::I64GtS => 0x55,
            Opcode::I64GtU => 0x56,
            Opcode::I64LeS => 0x57,
            Opcode::I64LeU => 0x58,
            Opcode::I64GeS => 0x59,
            Opcode::I64GeU => 0x5a,
            Opcode::F32Eq => 0x5b,
            Opcode::F32Ne => 0x5c,
            Opcode::F32Lt => 0x5d,
            Opcode::F32Gt => 0x5e,
            Opcode::F32Le => 0x5f,
            Opcode::F32Ge => 0x60,
            Opcode::F64Eq => 0x61,
            Opcode::F64Ne => 0x62,
            Opcode::F64Lt => 0x63,
            Opcode::F64Gt => 0x64,
            Opcode::F64Le => 0x65,
            Opcode::F64Ge => 0x66,
            Opcode::I32Clz => 0x67,
            Opcode::I32Ctz => 0x68,
            Opcode::I32Popcnt => 0x69,
            Opcode::I32Add => 0x6a,
            Opcode::I32Sub => 0x6b,
            Opcode::I32Mul => 0x6c,
            Opcode::I32DivS => 0x6d,
            Opcode::I32DivU => 0x6e,
            Opcode::I32RemS => 0x6f,
            Opcode::I32RemU => 0x70,
            Opcode::I32And => 0x71,
            Opcode::I32Or => 0x72,
            Opcode::I32Xor => 0x73,
            Opcode::I32Shl => 0x74,
            Opcode::I32ShrS => 0x75,
            Opcode::I32ShrU => 0x76,
            Opcode::I32Rotl => 0x77,
            Opcode::I32Rotr => 0x78,
            Opcode::I64Clz => 0x79,
            Opcode::I64Ctz => 0x7a,
            Opcode::I64Popcnt => 0x7b,
            Opcode::I64Add => 0x7c,
            Opcode::I64Sub => 0x7d,
            Opcode::I64Mul => 0x7e,
            Opcode::I64DivS => 0x7f,
            Opcode::I64DivU => 0x80,
            Opcode::I64RemS => 0x81,
            Opcode::I64RemU => 0x82,
            Opcode::I64And => 0x83,
            Opcode::I64Or => 0x84,
            Opcode::I64Xor => 0x85,
            Opcode::I64Shl => 0x86,
            Opcode::I64ShrS => 0x87,
            Opcode::I64ShrU => 0x88,
            Opcode::I64Rotl => 0x89,
            Opcode::I64Rotr => 0x8a,
            Opcode::F32Abs => 0x8b,
            Opcode::F32Neg => 0x8c,
            Opcode::F32Ceil => 0x8d,
            Opcode::F32Floor => 0x8e,
            Opcode::F32Trunc => 0x8f,
            Opcode::F32Nearest => 0x90,
            Opcode::F32Sqrt => 0x91,
            Opcode::F32Add => 0x92,
            Opcode::F32Sub => 0x93,
            Opcode::F32Mul => 0x94,
            Opcode::F32Div => 0x95,
            Opcode::F32Min => 0x96,
            Opcode::F32Max => 0x97,
            Opcode::F32Copysign => 0x98,
            Opcode::F64Abs => 0x99,
            Opcode::F64Neg => 0x9a,
            Opcode::F64Ceil => 0x9b,
            Opcode::F64Floor => 0x9c,
            Opcode::F64Trunc => 0x9d,
            Opcode::F64Nearest => 0x9e,
            Opcode::F64Sqrt => 0x9f,
            Opcode::F64Add => 0xa0,
            Opcode::F64Sub => 0xa1,
            Opcode::F64Mul => 0xa2,
            Opcode::F64Div => 0xa3,
            Opcode::F64Min => 0xa4,
            Opcode::F64Max => 0xa5,
            Opcode::F64Copysign => 0xa6,
            Opcode::I32WarpI64 => 0xa7,
            Opcode::I32TruncSF32 => 0xa8,
            Opcode::I32TruncUF32 => 0xa9,
            Opcode::I32TruncSF64 => 0xaa,
            Opcode::I32TruncUF64 => 0xab,
            Opcode::I64ExtendSI32 => 0xac,
            Opcode::I64ExtendUI32 => 0xad,
            Opcode::I64TruncSF32 => 0xae,
            Opcode::I64TruncUF32 => 0xaf,
            Opcode::I64TruncSF64 => 0xb0,
            Opcode::I64TruncUF64 => 0xb1,
            Opcode::F32ConvertSI32 => 0xb2,
            Opcode::F32ConvertUI32 => 0xb3,
            Opcode::F32ConvertSI64 => 0xb4,
            Opcode::F32ConvertUI64 => 0xb5,
            Opcode::F32DemoteF64 => 0xb6,
            Opcode::F64ConvertSI32 => 0xb7,
            Opcode::F64ConvertUI32 => 0xb8,
            Opcode::F64ConvertSI64 => 0xb9,
            Opcode::F64ConvertUI64 => 0xba,
            Opcode::F64PromoteF32 => 0xbb,
            Opcode::I32ReinterpretF32 => 0xbc,
            Opcode::I64ReinterpretF64 => 0xbd,
            Opcode::F32ReinterpretI32 => 0xbe,
            Opcode::F64ReinterpretI64 => 0xbf,
        }
    }

    /// True of the instructions that open a nested block.
    pub open spec fn spec_is_block(&self) -> bool {
        self is Block || self is Loop || self is If
    }

    /// True of the instruction that closes a block.
    pub open spec fn spec_is_terminal(&self) -> bool {
        *self == Opcode::End
    }

    /// Whether this instruction opens a nested block.
    pub fn is_block(&self) -> (r: bool)
        ensures
            r == self.spec_is_block(),
    {
        match self {
            Opcode::Block(_) | Opcode::Loop(_) | Opcode::If(_) => true,
            _ => false,
        }
    }

    /// Whether this instruction closes a block.
    pub fn is_terminal(&self) -> (r: bool)
        ensures
            r == self.spec_is_terminal(),
    {
        match self {
            Opcode::End => true,
            _ => false,
        }
    }
}

impl Serialize for Opcode {
    open spec fn enc(&self) -> Seq<u8> {
        seq![op_first_byte(*self)] + op_imm_enc(*self)
    }

    open spec fn deq(&self, other: &Self) -> bool {
        match (self, other) {
            (Opcode::BrTable(t1, d1), Opcode::BrTable(t2, d2)) => t1@ == t2@ && d1 == d2,
            _ => self == other,
        }
    }

    open spec fn enc_wf(&self) -> bool {
        match self {
            Opcode::BrTable(t, _) => t@.len() <= u32::MAX,
            _ => true,
        }
    }

    #[verifier::rlimit(100)]
    fn serialize(&self, out: &mut Vec<u8>) {
        let b = self.opcode_byte();
        out.push(b);
        proof {
            assert(out@ =~= old(out)@ + seq![op_first_byte(*self)]);
        }
        match self {
            Opcode::Block(bt) | Opcode::Loop(bt) | Opcode::If(bt) => {
                bt.serialize(out);
            },
            Opcode::Br(x) | Opcode::BrIf(x) | Opcode::Call(x) | Opcode::GetLocal(x) | Opcode::SetLocal(x) | Opcode::TeeLocal(x) | Opcode::GetGlobal(x) | Opcode::SetGlobal(x) => {
                write_leb_u32(out, *x);
            },
            Opcode::BrTable(t, d) => {
                write_u32_counted(out, t);
                write_leb_u32(out, *d);
            },
            Opcode::CallIndirect(x, r) => {
                write_leb_u32(out, *x);
                out.push(*r);
            },
            Opcode::I32Load(a, o) | Opcode::I64Load(a, o) | Opcode::F32Load(a, o) | Opcode::F64Load(a, o) | Opcode::I32Load8S(a, o) | Opcode::I32Load8U(a, o) | Opcode::I32Load16S(a, o) | Opcode::I32Load16U(a, o) | Opcode::I64Load8S(a, o) | Opcode::I64Load8U(a, o) | Opcode::I64Load16S(a, o) | Opcode::I64Load16U(a, o) | Opcode::I64Load32S(a, o) | Opcode::I64Load32U(a, o) | Opcode::I32Store(a, o) | Opcode::I64Store(a, o) | Opcode::F32Store(a, o) | Opcode::F64Store(a, o) | Opcode::I32Store8(a, o) | Opcode::I32Store16(a, o) | Opcode::I64Store8(a, o) | Opcode::I64Store16(a, o) | Opcode::I64Store32(a, o) => {
                write_leb_u32(out, *a);
                write_leb_u32(out, *o);
            },
            Opcode::CurrentMemory(r) | Opcode::GrowMemory(r) => {
                out.push(*r);
            },
            Opcode::I32Const(x) => {
                write_leb_i32(out, *x);
            },
            Opcode::I64Const(x) => {
                write_leb_i64(out, *x);
            },
            Opcode::F32Const(x) => {
                let bytes = vstd::bytes::u32_to_le_bytes(*x);
                crate::elements::io::write_bytes(out, bytes.as_slice());
            },
            Opcode::F64Const(x) => {
                let bytes = vstd::bytes::u64_to_le_bytes(*x);
                crate::elements::io::write_bytes(out, bytes.as_slice());
            },
            _ => {},
        }
        proof {
            assert(out@ =~= old(out)@ + self.enc());
        }
    }
}

/// Each leading byte belongs to exactly one instruction shape.
proof fn lemma_byte_is_block(v: Opcode)
    requires
        op_first_byte(v) == 0x2,
    ensures
        v is Block,
{
}

proof fn lemma_byte_is_loop(v: Opcode)
    requires
        op_first_byte(v) == 0x3,
    ensures
        v is Loop,
{
}

proof fn lemma_byte_is_if(v: Opcode)
    requires
        op_first_byte(v) == 0x4,
    ensures
        v is If,
{
}

proof fn lemma_byte_is_br(v: Opcode)
    requires
        op_first_byte(v) == 0xc,
    ensures
        v is Br,
{
}

proof fn lemma_byte_is_brif(v: Opcode)
    requires
        op_first_byte(v) == 0xd,
    ensures
        v is BrIf,
{
}

proof fn lemma_byte_is_call(v: Opcode)
    requires
        op_first_byte(v) == 0x10,
    ensures
        v is Call,
{
}

proof fn lemma_byte_is_getlocal(v: Opcode)
    requires
        op_first_byte(v) == 0x20,
    ensures
        v is GetLocal,
{
}

proof fn lemma_byte_is_setlocal(v: Opcode)
    requires
        op_first_byte(v) == 0x21,
    ensures
        v is SetLocal,
{
}

proof fn lemma_byte_is_teelocal(v: Opcode)
    requires
        op_first_byte(v) == 0x22,
    ensures
        v is TeeLocal,
{
}

proof fn lemma_byte_is_getglobal(v: Opcode)
    requires
        op_first_byte(v) == 0x23,
    ensures
        v is GetGlobal,
{
}

proof fn lemma_byte_is_setglobal(v: Opcode)
    requires
        op_first_byte(v) == 0x24,
    ensures
        v is SetGlobal,
{
}

proof fn lemma_byte_is_brtable(v: Opcode)
    requires
        op_first_byte(v) == 0xe,
    ensures
        v is BrTable,
{
}

proof fn lemma_byte_is_callindirect(v: Opcode)
    requires
        op_first_byte(v) == 0x11,
    ensures
        v is CallIndirect,
{
}

proof fn lemma_byte_is_i32load(v: Opcode)
    requires
        op_first_byte(v) == 0x28,
    ensures
        v is I32Load,
{
}

proof fn lemma_byte_is_i64load(v: Opcode)
    requires
        op_first_byte(v) == 0x29,
    ensures
        v is I64Load,
{
}

proof fn lemma_byte_is_f32load(v: Opcode)
    requires
        op_first_byte(v) == 0x2a,
    ensures
        v is F32Load,
{
}

proof fn lemma_byte_is_f64load(v: Opcode)
    requires
        op_first_byte(v) == 0x2b,
    ensures
        v is F64Load,
{
}

proof fn lemma_byte_is_i32load8s(v: Opcode)
    requires
        op_first_byte(v) == 0x2c,
    ensures
        v is I32Load8S,
{
}

proof fn lemma_byte_is_i32load8u(v: Opcode)
    requires
        op_first_byte(v) == 0x2d,
    ensures
        v is I32Load8U,
{
}

proof fn lemma_byte_is_i32load16s(v: Opcode)
    requires
        op_first_byte(v) == 0x2e,
    ensures
        v is I32Load16S,
{
}

proof fn lemma_byte_is_i32load16u(v: Opcode)
    requires
        op_first_byte(v) == 0x2f,
    ensures
        v is I32Load16U,
{
}

proof fn lemma_byte_is_i64load8s(v: Opcode)
    requires
        op_first_byte(v) == 0x30,
    ensures
        v is I64Load8S,
{
}

proof fn lemma_byte_is_i64load8u(v: Opcode)
    requires
        op_first_byte(v) == 0x31,
    ensures
        v is I64Load8U,
{
}

proof fn lemma_byte_is_i64load16s(v: Opcode)
    requires
        op_first_byte(v) == 0x32,
    ensures
        v is I64Load16S,
{
}

proof fn lemma_byte_is_i64load16u(v: Opcode)
    requires
        op_first_byte(v) == 0x33,
    ensures
        v is I64Load16U,
{
}

proof fn lemma_byte_is_i64load32s(v: Opcode)
    requires
        op_first_byte(v) == 0x34,
    ensures
        v is I64Load32S,
{
}

proof fn lemma_byte_is_i64load32u(v: Opcode)
    requires
        op_first_byte(v) == 0x35,
    ensures
        v is I64Load32U,
{
}

proof fn lemma_byte_is_i32store(v: Opcode)
    requires
        op_first_byte(v) == 0x36,
    ensures
        v is I32Store,
{
}

proof fn lemma_byte_is_i64store(v: Opcode)
    requires
        op_first_byte(v) == 0x37,
    ensures
        v is I64Store,
{
}

proof fn lemma_byte_is_f32store(v: Opcode)
    requires
        op_first_byte(v) == 0x38,
    ensures
        v is F32Store,
{
}

proof fn lemma_byte_is_f64store(v: Opcode)
    requires
        op_first_byte(v) == 0x39,
    ensures
        v is F64Store,
{
}

proof fn lemma_byte_is_i32store8(v: Opcode)
    requires
        op_first_byte(v) == 0x3a,
    ensures
        v is I32Store8,
{
}

proof fn lemma_byte_is_i32store16(v: Opcode)
    requires
        op_first_byte(v) == 0x3b,
    ensures
        v is I32Store16,
{
}

proof fn lemma_byte_is_i64store8(v: Opcode)
    requires
        op_first_byte(v) == 0x3c,
    ensures
        v is I64Store8,
{
}

proof fn lemma_byte_is_i64store16(v: Opcode)
    requires
        op_first_byte(v) == 0x3d,
    ensures
        v is I64Store16,
{
}

proof fn lemma_byte_is_i64store32(v: Opcode)
    requires
        op_first_byte(v) == 0x3e,
    ensures
        v is I64Store32,
{
}

proof fn lemma_byte_is_currentmemory(v: Opcode)
    requires
        op_first_byte(v) == 0x3f,
    ensures
        v is CurrentMemory,
{
}

proof fn lemma_byte_is_growmemory(v: Opcode)
    requires
        op_first_byte(v) == 0x40,
    ensures
        v is GrowMemory,
{
}

proof fn lemma_byte_is_i32const(v: Opcode)
    requires
        op_first_byte(v) == 0x41,
    ensures
        v is I32Const,
{
}

proof fn lemma_byte_is_i64const(v: Opcode)
    requires
        op_first_byte(v) == 0x42,
    ensures
        v is I64Const,
{
}

proof fn lemma_byte_is_f32const(v: Opcode)
    requires
        op_first_byte(v) == 0x43,
    ensures
        v is F32Const,
{
}

proof fn lemma_byte_is_f64const(v: Opcode)
    requires
        op_first_byte(v) == 0x44,
    ensures
        v is F64Const,
{
}

/// A byte outside the immediate-carrying ranges names an instruction
/// without immediates, and the decoding table inverts the encoding.
#[verifier::rlimit(100)]
proof fn lemma_wildcard_opcode(v: Opcode, b: u8)
    requires
        op_first_byte(v) == b,
        b != 0x02 && b != 0x03 && b != 0x04 && b != 0x0c && b != 0x0d && b != 0x0e && b != 0x10
            && b != 0x11,
        !(0x20 <= b <= 0x24),
        !(0x28 <= b <= 0x40),
        !(0x41 <= b <= 0x44),
    ensures
        spec_simple_opcode(b) == Some(v),
        op_imm_enc(v) == Seq::<u8>::empty(),
{
}

/// Decode the immediates of an instruction whose leading byte is `b`.
fn read_op_block<'a>(reader: &mut Reader<'a>, b: u8, Ghost(r0): Ghost<Reader<'a>>) -> (r: Result<
    Opcode,
    Error,
>)
    requires
        old(reader).wf(),
        r0.wf(),
        old(reader).input() == r0.input(),
        old(reader).position() == r0.position() + 1,
        r0.remaining().len() > 0,
        r0.remaining()[0] == b,
        0x02 <= b <= 0x04,
    ensures
        final(reader).wf(),
        final(reader).input() == old(reader).input(),
        final(reader).position() >= old(reader).position(),
        forall|v: Opcode, rest: Seq<u8>|
            v.enc_wf() && r0.remaining() == #[trigger] (v.enc() + rest) ==> r is Ok
                && r->Ok_0.deq(&v) && final(reader).position() == r0.position() + v.enc().len(),
{
    let ghost r1 = *old(reader);
    proof {
        assert forall|v: Opcode, rest: Seq<u8>|
            v.enc_wf() && r0.remaining() == #[trigger] (v.enc() + rest) implies b == op_first_byte(v) && r1.remaining() == op_imm_enc(v) + rest by {
            assert(v.enc() + rest =~= seq![op_first_byte(v)] + (op_imm_enc(v) + rest));
            assert(r0.remaining()[0] == op_first_byte(v));
            lemma_reader_advance(r0, r1, seq![op_first_byte(v)], op_imm_enc(v) + rest);
        }
    }

    let bt = match BlockType::deserialize(reader) {
        Ok(bt) => bt,
        Err(e) => {
            proof {
                assert forall|v: Opcode, rest: Seq<u8>| v.enc_wf() && r0.remaining() == #[trigger] (v.enc() + rest) implies false by {
                    if b == 0x02 { lemma_byte_is_block(v); }
                    else if b == 0x03 { lemma_byte_is_loop(v); }
                    else { lemma_byte_is_if(v); }
                    assert(op_imm_enc(v).len() > 0);
                }
            }
            return Err(e);
        },
    };
    let r: Result<Opcode, Error> = if b == 0x02 {
        Ok(Opcode::Block(bt))
    } else if b == 0x03 {
        Ok(Opcode::Loop(bt))
    } else {
        Ok(Opcode::If(bt))
    };
    proof {
        assert forall|v: Opcode, rest: Seq<u8>|
            v.enc_wf() && r0.remaining() == #[trigger] (v.enc() + rest) implies r is Ok && r->Ok_0.deq(&v) && reader.position() == r0.position()
            + v.enc().len() by {
            if b == 0x02 { lemma_byte_is_block(v); }
            else if b == 0x03 { lemma_byte_is_loop(v); }
            else { lemma_byte_is_if(v); }
        }
    }
    r
}

/// Decode the immediates of an instruction whose leading byte is `b`.
fn read_op_u32<'a>(reader: &mut Reader<'a>, b: u8, Ghost(r0): Ghost<Reader<'a>>) -> (r: Result<
    Opcode,
    Error,
>)
    requires
        old(reader).wf(),
        r0.wf(),
        old(reader).input() == r0.input(),
        old(reader).position() == r0.position() + 1,
        r0.remaining().len() > 0,
        r0.remaining()[0] == b,
        (b == 0x0c || b == 0x0d || b == 0x10 || 0x20 <= b <= 0x24),
    ensures
        final(reader).wf(),
        final(reader).input() == old(reader).input(),
        final(reader).position() >= old(reader).position(),
        forall|v: Opcode, rest: Seq<u8>|
            v.enc_wf() && r0.remaining() == #[trigger] (v.enc() + rest) ==> r is Ok
                && r->Ok_0.deq(&v) && final(reader).position() == r0.position() + v.enc().len(),
{
    let ghost r1 = *old(reader);
    proof {
        assert forall|v: Opcode, rest: Seq<u8>|
            v.enc_wf() && r0.remaining() == #[trigger] (v.enc() + rest) implies b == op_first_byte(v) && r1.remaining() == op_imm_enc(v) + rest by {
            assert(v.enc() + rest =~= seq![op_first_byte(v)] + (op_imm_enc(v) + rest));
            assert(r0.remaining()[0] == op_first_byte(v));
            lemma_reader_advance(r0, r1, seq![op_first_byte(v)], op_imm_enc(v) + rest);
        }
    }

    let x = match read_leb_u32(reader, 5) {
        Ok(x) => x,
        Err(e) => {
            proof {
                assert forall|v: Opcode, rest: Seq<u8>| v.enc_wf() && r0.remaining() == #[trigger] (v.enc() + rest) implies false by {
                    if b == 0xc { lemma_byte_is_br(v); }
                    if b == 0xd { lemma_byte_is_brif(v); }
                    if b == 0x10 { lemma_byte_is_call(v); }
                    if b == 0x20 { lemma_byte_is_getlocal(v); }
                    if b == 0x21 { lemma_byte_is_setlocal(v); }
                    if b == 0x22 { lemma_byte_is_teelocal(v); }
                    if b == 0x23 { lemma_byte_is_getglobal(v); }
                    if b == 0x24 { lemma_byte_is_setglobal(v); }
                    let x0 = op_u32_imm(v);
                    lemma_enc_leb_u32_len(x0);
                    lemma_leb_u32_round_trip(x0, rest, 5);
                }
            }
            return Err(e);
        },
    };
    let r: Result<Opcode, Error> = if b == 0xc {
        Ok(Opcode::Br(x))
    } else if b == 0xd {
        Ok(Opcode::BrIf(x))
    } else if b == 0x10 {
        Ok(Opcode::Call(x))
    } else if b == 0x20 {
        Ok(Opcode::GetLocal(x))
    } else if b == 0x21 {
        Ok(Opcode::SetLocal(x))
    } else if b == 0x22 {
        Ok(Opcode::TeeLocal(x))
    } else if b == 0x23 {
        Ok(Opcode::GetGlobal(x))
    } else {
        Ok(Opcode::SetGlobal(x))
    };
    proof {
        assert forall|v: Opcode, rest: Seq<u8>|
            v.enc_wf() && r0.remaining() == #[trigger] (v.enc() + rest) implies r is Ok && r->Ok_0.deq(&v) && reader.position() == r0.position()
            + v.enc().len() by {
                    if b == 0xc { lemma_byte_is_br(v); }
                    if b == 0xd { lemma_byte_is_brif(v); }
                    if b == 0x10 { lemma_byte_is_call(v); }
                    if b == 0x20 { lemma_byte_is_getlocal(v); }
                    if b == 0x21 { lemma_byte_is_setlocal(v); }
                    if b == 0x22 { lemma_byte_is_teelocal(v); }
                    if b == 0x23 { lemma_byte_is_getglobal(v); }
                    if b == 0x24 { lemma_byte_is_setglobal(v); }
            let x0 = op_u32_imm(v);
            lemma_enc_leb_u32_len(x0);
            lemma_leb_u32_round_trip(x0, rest, 5);
        }
    }
    r
}

/// Decode the immediates of an instruction whose leading byte is `b`.
fn read_op_mem<'a>(reader: &mut Reader<'a>, b: u8, Ghost(r0): Ghost<Reader<'a>>) -> (r: Result<
    Opcode,
    Error,
>)
    requires
        old(reader).wf(),
        r0.wf(),
        old(reader).input() == r0.input(),
        old(reader).position() == r0.position() + 1,
        r0.remaining().len() > 0,
        r0.remaining()[0] == b,
        0x28 <= b <= 0x3e,
    ensures
        final(reader).wf(),
        final(reader).input() == old(reader).input(),
        final(reader).position() >= old(reader).position(),
        forall|v: Opcode, rest: Seq<u8>|
            v.enc_wf() && r0.remaining() == #[trigger] (v.enc() + rest) ==> r is Ok
                && r->Ok_0.deq(&v) && final(reader).position() == r0.position() + v.enc().len(),
{
    let ghost r1 = *old(reader);
    proof {
        assert forall|v: Opcode, rest: Seq<u8>|
            v.enc_wf() && r0.remaining() == #[trigger] (v.enc() + rest) implies b == op_first_byte(v) && r1.remaining() == op_imm_enc(v) + rest by {
            assert(v.enc() + rest =~= seq![op_first_byte(v)] + (op_imm_enc(v) + rest));
            assert(r0.remaining()[0] == op_first_byte(v));
            lemma_reader_advance(r0, r1, seq![op_first_byte(v)], op_imm_enc(v) + rest);
        }
    }

    let a = match read_leb_u32(reader, 5) {
        Ok(a) => a,
        Err(e) => {
            proof {
                assert forall|v: Opcode, rest: Seq<u8>| v.enc_wf() && r0.remaining() == #[trigger] (v.enc() + rest) implies false by {
                    if b == 0x28 { lemma_byte_is_i32load(v); }
                    if b == 0x29 { lemma_byte_is_i64load(v); }
                    if b == 0x2a { lemma_byte_is_f32load(v); }
                    if b == 0x2b { lemma_byte_is_f64load(v); }
                    if b == 0x2c { lemma_byte_is_i32load8s(v); }
                    if b == 0x2d { lemma_byte_is_i32load8u(v); }
                    if b == 0x2e { lemma_byte_is_i32load16s(v); }
                    if b == 0x2f { lemma_byte_is_i32load16u(v); }
                    if b == 0x30 { lemma_byte_is_i64load8s(v); }
                    if b == 0x31 { lemma_byte_is_i64load8u(v); }
                    if b == 0x32 { lemma_byte_is_i64load16s(v); }
                    if b == 0x33 { lemma_byte_is_i64load16u(v); }
                    if b == 0x34 { lemma_byte_is_i64load32s(v); }
                    if b == 0x35 { lemma_byte_is_i64load32u(v); }
                    if b == 0x36 { lemma_byte_is_i32store(v); }
                    if b == 0x37 { lemma_byte_is_i64store(v); }
                    if b == 0x38 { lemma_byte_is_f32store(v); }
                    if b == 0x39 { lemma_byte_is_f64store(v); }
                    if b == 0x3a { lemma_byte_is_i32store8(v); }
                    if b == 0x3b { lemma_byte_is_i32store16(v); }
                    if b == 0x3c { lemma_byte_is_i64store8(v); }
                    if b == 0x3d { lemma_byte_is_i64store16(v); }
                    if b == 0x3e { lemma_byte_is_i64store32(v); }
                    let a0 = op_mem_align(v);
                    let o0 = op_mem_offset(v);
                    lemma_enc_leb_u32_len(a0);
                    lemma_leb_u32_round_trip(a0, enc_leb_u32(o0) + rest, 5);
                    assert(op_imm_enc(v) + rest =~= enc_leb_u32(a0) + (enc_leb_u32(o0) + rest));
                }
            }
            return Err(e);
        },
    };
    let ghost r2 = *reader;
    let o = match read_leb_u32(reader, 5) {
        Ok(o) => o,
        Err(e) => {
            proof {
                assert forall|v: Opcode, rest: Seq<u8>| v.enc_wf() && r0.remaining() == #[trigger] (v.enc() + rest) implies false by {
                    if b == 0x28 { lemma_byte_is_i32load(v); }
                    if b == 0x29 { lemma_byte_is_i64load(v); }
                    if b == 0x2a { lemma_byte_is_f32load(v); }
                    if b == 0x2b { lemma_byte_is_f64load(v); }
                    if b == 0x2c { lemma_byte_is_i32load8s(v); }
                    if b == 0x2d { lemma_byte_is_i32load8u(v); }
                    if b == 0x2e { lemma_byte_is_i32load16s(v); }
                    if b == 0x2f { lemma_byte_is_i32load16u(v); }
                    if b == 0x30 { lemma_byte_is_i64load8s(v); }
                    if b == 0x31 { lemma_byte_is_i64load8u(v); }
                    if b == 0x32 { lemma_byte_is_i64load16s(v); }
                    if b == 0x33 { lemma_byte_is_i64load16u(v); }
                    if b == 0x34 { lemma_byte_is_i64load32s(v); }
                    if b == 0x35 { lemma_byte_is_i64load32u(v); }
                    if b == 0x36 { lemma_byte_is_i32store(v); }
                    if b == 0x37 { lemma_byte_is_i64store(v); }
                    if b == 0x38 { lemma_byte_is_f32store(v); }
                    if b == 0x39 { lemma_byte_is_f64store(v); }
                    if b == 0x3a { lemma_byte_is_i32store8(v); }
                    if b == 0x3b { lemma_byte_is_i32store16(v); }
                    if b == 0x3c { lemma_byte_is_i64store8(v); }
                    if b == 0x3d { lemma_byte_is_i64store16(v); }
                    if b == 0x3e { lemma_byte_is_i64store32(v); }
                    let a0 = op_mem_align(v);
                    let o0 = op_mem_offset(v);
                    lemma_enc_leb_u32_len(a0);
                    lemma_leb_u32_round_trip(a0, enc_leb_u32(o0) + rest, 5);
                    assert(op_imm_enc(v) + rest =~= enc_leb_u32(a0) + (enc_leb_u32(o0) + rest));
                    lemma_reader_advance(r1, r2, enc_leb_u32(a0), enc_leb_u32(o0) + rest);
                    lemma_enc_leb_u32_len(o0);
                    lemma_leb_u32_round_trip(o0, rest, 5);
                }
            }
            return Err(e);
        },
    };
    let r: Result<Opcode, Error> = if b == 0x28 {
        Ok(Opcode::I32Load(a, o))
    } else if b == 0x29 {
        Ok(Opcode::I64Load(a, o))
    } else if b == 0x2a {
        Ok(Opcode::F32Load(a, o))
    } else if b == 0x2b {
        Ok(Opcode::F64Load(a, o))
    } else if b == 0x2c {
        Ok(Opcode::I32Load8S(a, o))
    } else if b == 0x2d {
        Ok(Opcode::I32Load8U(a, o))
    } else if b == 0x2e {
        Ok(Opcode::I32Load16S(a, o))
    } else if b == 0x2f {
        Ok(Opcode::I32Load16U(a, o))
    } else if b == 0x30 {
        Ok(Opcode::I64Load8S(a, o))
    } else if b == 0x31 {
        Ok(Opcode::I64Load8U(a, o))
    } else if b == 0x32 {
        Ok(Opcode::I64Load16S(a, o))
    } else if b == 0x33 {
        Ok(Opcode::I64Load16U(a, o))
    } else if b == 0x34 {
        Ok(Opcode::I64Load32S(a, o))
    } else if b == 0x35 {
        Ok(Opcode::I64Load32U(a, o))
    } else if b == 0x36 {
        Ok(Opcode::I32Store(a, o))
    } else if b == 0x37 {
        Ok(Opcode::I64Store(a, o))
    } else if b == 0x38 {
        Ok(Opcode::F32Store(a, o))
    } else if b == 0x39 {
        Ok(Opcode::F64Store(a, o))
    } else if b == 0x3a {
        Ok(Opcode::I32Store8(a, o))
    } else if b == 0x3b {
        Ok(Opcode::I32Store16(a, o))
    } else if b == 0x3c {
        Ok(Opcode::I64Store8(a, o))
    } else if b == 0x3d {
        Ok(Opcode::I64Store16(a, o))
    } else {
        Ok(Opcode::I64Store32(a, o))
    };
    proof {
        assert forall|v: Opcode, rest: Seq<u8>|
            v.enc_wf() && r0.remaining() == #[trigger] (v.enc() + rest) implies r is Ok && r->Ok_0.deq(&v) && reader.position() == r0.position()
            + v.enc().len() by {
                    if b == 0x28 { lemma_byte_is_i32load(v); }
                    if b == 0x29 { lemma_byte_is_i64load(v); }
                    if b == 0x2a { lemma_byte_is_f32load(v); }
                    if b == 0x2b { lemma_byte_is_f64load(v); }
                    if b == 0x2c { lemma_byte_is_i32load8s(v); }
                    if b == 0x2d { lemma_byte_is_i32load8u(v); }
                    if b == 0x2e { lemma_byte_is_i32load16s(v); }
                    if b == 0x2f { lemma_byte_is_i32load16u(v); }
                    if b == 0x30 { lemma_byte_is_i64load8s(v); }
                    if b == 0x31 { lemma_byte_is_i64load8u(v); }
                    if b == 0x32 { lemma_byte_is_i64load16s(v); }
                    if b == 0x33 { lemma_byte_is_i64load16u(v); }
                    if b == 0x34 { lemma_byte_is_i64load32s(v); }
                    if b == 0x35 { lemma_byte_is_i64load32u(v); }
                    if b == 0x36 { lemma_byte_is_i32store(v); }
                    if b == 0x37 { lemma_byte_is_i64store(v); }
                    if b == 0x38 { lemma_byte_is_f32store(v); }
                    if b == 0x39 { lemma_byte_is_f64store(v); }
                    if b == 0x3a { lemma_byte_is_i32store8(v); }
                    if b == 0x3b { lemma_byte_is_i32store16(v); }
                    if b == 0x3c { lemma_byte_is_i64store8(v); }
                    if b == 0x3d { lemma_byte_is_i64store16(v); }
                    if b == 0x3e { lemma_byte_is_i64store32(v); }
            let a0 = op_mem_align(v);
            let o0 = op_mem_offset(v);
            lemma_enc_leb_u32_len(a0);
            lemma_leb_u32_round_trip(a0, enc_leb_u32(o0) + rest, 5);
            assert(op_imm_enc(v) + rest =~= enc_leb_u32(a0) + (enc_leb_u32(o0) + rest));
            lemma_reader_advance(r1, r2, enc_leb_u32(a0), enc_leb_u32(o0) + rest);
            lemma_enc_leb_u32_len(o0);
            lemma_leb_u32_round_trip(o0, rest, 5);
        }
    }
    r
}

/// The single index immediate of a branch, call, or variable instruction.
pub open spec fn op_u32_imm(v: Opcode) -> u32 {
    match v {
        Opcode::Br(x) => x,
        Opcode::BrIf(x) => x,
        Opcode::Call(x) => x,
        Opcode::GetLocal(x) => x,
        Opcode::SetLocal(x) => x,
        Opcode::TeeLocal(x) => x,
        Opcode::GetGlobal(x) => x,
        Opcode::SetGlobal(x) => x,
        _ => 0,
    }
}

/// The alignment immediate of a memory instruction.
pub open spec fn op_mem_align(v: Opcode) -> u32 {
    match v {
        Opcode::I32Load(a, _) => a,
        Opcode::I64Load(a, _) => a,
        Opcode::F32Load(a, _) => a,
        Opcode::F64Load(a, _) => a,
        Opcode::I32Load8S(a, _) => a,
        Opcode::I32Load8U(a, _) => a,
        Opcode::I32Load16S(a, _) => a,
        Opcode::I32Load16U(a, _) => a,
        Opcode::I64Load8S(a, _) => a,
        Opcode::I64Load8U(a, _) => a,
        Opcode::I64Load16S(a, _) => a,
        Opcode::I64Load16U(a, _) => a,
        Opcode::I64Load32S(a, _) => a,
        Opcode::I64Load32U(a, _) => a,
        Opcode::I32Store(a, _) => a,
        Opcode::I64Store(a, _) => a,
        Opcode::F32Store(a, _) => a,
        Opcode::F64Store(a, _) => a,
        Opcode::I32Store8(a, _) => a,
        Opcode::I32Store16(a, _) => a,
        Opcode::I64Store8(a, _) => a,
        Opcode::I64Store16(a, _) => a,
        Opcode::I64Store32(a, _) => a,
        _ => 0,
    }
}

/// The static offset immediate of a memory instruction.
pub open spec fn op_mem_offset(v: Opcode) -> u32 {
    match v {
        Opcode::I32Load(_, o) => o,
        Opcode::I64Load(_, o) => o,
        Opcode::F32Load(_, o) => o,
        Opcode::F64Load(_, o) => o,
        Opcode::I32Load8S(_, o) => o,
        Opcode::I32Load8U(_, o) => o,
        Opcode::I32Load16S(_, o) => o,
        Opcode::I32Load16U(_, o) => o,
        Opcode::I64Load8S(_, o) => o,
        Opcode::I64Load8U(_, o) => o,
        Opcode::I64Load16S(_, o) => o,
        Opcode::I64Load16U(_, o) => o,
        Opcode::I64Load32S(_, o) => o,
        Opcode::I64Load32U(_, o) => o,
        Opcode::I32Store(_, o) => o,
        Opcode::I64Store(_, o) => o,
        Opcode::F32Store(_, o) => o,
        Opcode::F64Store(_, o) => o,
        Opcode::I32Store8(_, o) => o,
        Opcode::I32Store16(_, o) => o,
        Opcode::I64Store8(_, o) => o,
        Opcode::I64Store16(_, o) => o,
        Opcode::I64Store32(_, o) => o,
        _ => 0,
    }
}

/// Decode the immediates of an instruction whose leading byte is `b`.
fn read_op_br_table<'a>(reader: &mut Reader<'a>, b: u8, Ghost(r0): Ghost<Reader<'a>>) -> (r: Result<
    Opcode,
    Error,
>)
    requires
        old(reader).wf(),
        r0.wf(),
        old(reader).input() == r0.input(),
        old(reader).position() == r0.position() + 1,
        r0.remaining().len() > 0,
        r0.remaining()[0] == b,
        b == 0x0e,
    ensures
        final(reader).wf(),
        final(reader).input() == old(reader).input(),
        final(reader).position() >= old(reader).position(),
        forall|v: Opcode, rest: Seq<u8>|
            v.enc_wf() && r0.remaining() == #[trigger] (v.enc() + rest) ==> r is Ok
                && r->Ok_0.deq(&v) && final(reader).position() == r0.position() + v.enc().len(),
{
    let ghost r1 = *old(reader);
    proof {
        assert forall|v: Opcode, rest: Seq<u8>|
            v.enc_wf() && r0.remaining() == #[trigger] (v.enc() + rest) implies b == op_first_byte(v) && r1.remaining() == op_imm_enc(v) + rest by {
            assert(v.enc() + rest =~= seq![op_first_byte(v)] + (op_imm_enc(v) + rest));
            assert(r0.remaining()[0] == op_first_byte(v));
            lemma_reader_advance(r0, r1, seq![op_first_byte(v)], op_imm_enc(v) + rest);
        }
    }

    let t = match read_u32_counted(reader) {
        Ok(t) => t,
        Err(e) => {
            proof {
                assert forall|v: Opcode, rest: Seq<u8>| v.enc_wf() && r0.remaining() == #[trigger] (v.enc() + rest) implies false by {
                    lemma_byte_is_brtable(v);
                    let t0 = v->BrTable_0;
                    let d0 = v->BrTable_1;
                    assert(op_imm_enc(v) + rest =~= enc_u32_counted(t0@) + (enc_leb_u32(d0)
                        + rest));
                }
            }
            return Err(e);
        },
    };
    let ghost r2 = *reader;
    proof {
        assert forall|v: Opcode, rest: Seq<u8>|
            v.enc_wf() && r0.remaining() == #[trigger] (v.enc() + rest) implies t@ == v->BrTable_0@ && r2.remaining() == enc_leb_u32(
            v->BrTable_1,
        ) + rest by {
            lemma_byte_is_brtable(v);
            let t0 = v->BrTable_0;
            let d0 = v->BrTable_1;
            assert(op_imm_enc(v) + rest =~= enc_u32_counted(t0@) + (enc_leb_u32(d0) + rest));
            lemma_reader_advance(r1, r2, enc_u32_counted(t0@), enc_leb_u32(d0) + rest);
        }
    }
    let d = match read_leb_u32(reader, 5) {
        Ok(d) => d,
        Err(e) => {
            proof {
                assert forall|v: Opcode, rest: Seq<u8>| v.enc_wf() && r0.remaining() == #[trigger] (v.enc() + rest) implies false by {
                    lemma_byte_is_brtable(v);
                    let d0 = v->BrTable_1;
                    lemma_enc_leb_u32_len(d0);
                    lemma_leb_u32_round_trip(d0, rest, 5);
                }
            }
            return Err(e);
        },
    };
    proof {
        assert forall|v: Opcode, rest: Seq<u8>|
            v.enc_wf() && r0.remaining() == #[trigger] (v.enc() + rest) implies Opcode::BrTable(t, d).deq(&v) && reader.position()
            == r0.position() + v.enc().len() by {
            lemma_byte_is_brtable(v);
            let d0 = v->BrTable_1;
            lemma_enc_leb_u32_len(d0);
            lemma_leb_u32_round_trip(d0, rest, 5);
        }
    }
    Ok(Opcode::BrTable(t, d))
}

/// Decode the immediates of an instruction whose leading byte is `b`.
fn read_op_call_indirect<'a>(reader: &mut Reader<'a>, b: u8, Ghost(r0): Ghost<Reader<'a>>) -> (r: Result<
    Opcode,
    Error,
>)
    requires
        old(reader).wf(),
        r0.wf(),
        old(reader).input() == r0.input(),
        old(reader).position() == r0.position() + 1,
        r0.remaining().len() > 0,
        r0.remaining()[0] == b,
        b == 0x11,
    ensures
        final(reader).wf(),
        final(reader).input() == old(reader).input(),
        final(reader).position() >= old(reader).position(),
        forall|v: Opcode, rest: Seq<u8>|
            v.enc_wf() && r0.remaining() == #[trigger] (v.enc() + rest) ==> r is Ok
                && r->Ok_0.deq(&v) && final(reader).position() == r0.position() + v.enc().len(),
{
    let ghost r1 = *old(reader);
    proof {
        assert forall|v: Opcode, rest: Seq<u8>|
            v.enc_wf() && r0.remaining() == #[trigger] (v.enc() + rest) implies b == op_first_byte(v) && r1.remaining() == op_imm_enc(v) + rest by {
            assert(v.enc() + rest =~= seq![op_first_byte(v)] + (op_imm_enc(v) + rest));
            assert(r0.remaining()[0] == op_first_byte(v));
            lemma_reader_advance(r0, r1, seq![op_first_byte(v)], op_imm_enc(v) + rest);
        }
    }

    let x = match read_leb_u32(reader, 5) {
        Ok(x) => x,
        Err(e) => {
            proof {
                assert forall|v: Opcode, rest: Seq<u8>| v.enc_wf() && r0.remaining() == #[trigger] (v.enc() + rest) implies false by {
                    lemma_byte_is_callindirect(v);
                    let x0 = v->CallIndirect_0;
                    let rr0 = v->CallIndirect_1;
                    lemma_enc_leb_u32_len(x0);
                    lemma_leb_u32_round_trip(x0, seq![rr0] + rest, 5);
                    assert(op_imm_enc(v) + rest =~= enc_leb_u32(x0) + (seq![rr0] + rest));
                }
            }
            return Err(e);
        },
    };
    let ghost r2 = *reader;
    let rr = match reader.read_u8() {
        Ok(rr) => rr,
        Err(e) => {
            proof {
                assert forall|v: Opcode, rest: Seq<u8>| v.enc_wf() && r0.remaining() == #[trigger] (v.enc() + rest) implies false by {
                    lemma_byte_is_callindirect(v);
                    let x0 = v->CallIndirect_0;
                    let rr0 = v->CallIndirect_1;
                    lemma_enc_leb_u32_len(x0);
                    lemma_leb_u32_round_trip(x0, seq![rr0] + rest, 5);
                    assert(op_imm_enc(v) + rest =~= enc_leb_u32(x0) + (seq![rr0] + rest));
                    lemma_reader_advance(r1, r2, enc_leb_u32(x0), seq![rr0] + rest);
                }
            }
            return Err(e);
        },
    };
    proof {
        assert forall|v: Opcode, rest: Seq<u8>|
            v.enc_wf() && r0.remaining() == #[trigger] (v.enc() + rest) implies Opcode::CallIndirect(x, rr).deq(&v) && reader.position()
            == r0.position() + v.enc().len() by {
            lemma_byte_is_callindirect(v);
            let x0 = v->CallIndirect_0;
            let rr0 = v->CallIndirect_1;
            lemma_enc_leb_u32_len(x0);
            lemma_leb_u32_round_trip(x0, seq![rr0] + rest, 5);
            assert(op_imm_enc(v) + rest =~= enc_leb_u32(x0) + (seq![rr0] + rest));
            lemma_reader_advance(r1, r2, enc_leb_u32(x0), seq![rr0] + rest);
            assert(r2.remaining()[0] == rr0);
        }
    }
    Ok(Opcode::CallIndirect(x, rr))
}

/// Decode the immediates of an instruction whose leading byte is `b`.
fn read_op_raw<'a>(reader: &mut Reader<'a>, b: u8, Ghost(r0): Ghost<Reader<'a>>) -> (r: Result<
    Opcode,
    Error,
>)
    requires
        old(reader).wf(),
        r0.wf(),
        old(reader).input() == r0.input(),
        old(reader).position() == r0.position() + 1,
        r0.remaining().len() > 0,
        r0.remaining()[0] == b,
        b == 0x3f || b == 0x40,
    ensures
        final(reader).wf(),
        final(reader).input() == old(reader).input(),
        final(reader).position() >= old(reader).position(),
        forall|v: Opcode, rest: Seq<u8>|
            v.enc_wf() && r0.remaining() == #[trigger] (v.enc() + rest) ==> r is Ok
                && r->Ok_0.deq(&v) && final(reader).position() == r0.position() + v.enc().len(),
{
    let ghost r1 = *old(reader);
    proof {
        assert forall|v: Opcode, rest: Seq<u8>|
            v.enc_wf() && r0.remaining() == #[trigger] (v.enc() + rest) implies b == op_first_byte(v) && r1.remaining() == op_imm_enc(v) + rest by {
            assert(v.enc() + rest =~= seq![op_first_byte(v)] + (op_imm_enc(v) + rest));
            assert(r0.remaining()[0] == op_first_byte(v));
            lemma_reader_advance(r0, r1, seq![op_first_byte(v)], op_imm_enc(v) + rest);
        }
    }

    let rr = match reader.read_u8() {
        Ok(rr) => rr,
        Err(e) => {
            proof {
                assert forall|v: Opcode, rest: Seq<u8>| v.enc_wf() && r0.remaining() == #[trigger] (v.enc() + rest) implies false by {
                    if b == 0x3f { lemma_byte_is_currentmemory(v); } else {
                        lemma_byte_is_growmemory(v);
                    }
                    assert(op_imm_enc(v).len() > 0);
                }
            }
            return Err(e);
        },
    };
    let r: Result<Opcode, Error> = if b == 0x3f {
        Ok(Opcode::CurrentMemory(rr))
    } else {
        Ok(Opcode::GrowMemory(rr))
    };
    proof {
        assert forall|v: Opcode, rest: Seq<u8>|
            v.enc_wf() && r0.remaining() == #[trigger] (v.enc() + rest) implies r is Ok && r->Ok_0.deq(&v) && reader.position() == r0.position()
            + v.enc().len() by {
            if b == 0x3f { lemma_byte_is_currentmemory(v); } else { lemma_byte_is_growmemory(v); }
            assert(r1.remaining()[0] == op_imm_enc(v)[0]);
        }
    }
    r
}

/// Decode the immediates of an instruction whose leading byte is `b`.
fn read_op_const<'a>(reader: &mut Reader<'a>, b: u8, Ghost(r0): Ghost<Reader<'a>>) -> (r: Result<
    Opcode,
    Error,
>)
    requires
        old(reader).wf(),
        r0.wf(),
        old(reader).input() == r0.input(),
        old(reader).position() == r0.position() + 1,
        r0.remaining().len() > 0,
        r0.remaining()[0] == b,
        0x41 <= b <= 0x44,
    ensures
        final(reader).wf(),
        final(reader).input() == old(reader).input(),
        final(reader).position() >= old(reader).position(),
        forall|v: Opcode, rest: Seq<u8>|
            v.enc_wf() && r0.remaining() == #[trigger] (v.enc() + rest) ==> r is Ok
                && r->Ok_0.deq(&v) && final(reader).position() == r0.position() + v.enc().len(),
{
    let ghost r1 = *old(reader);
    proof {
        assert forall|v: Opcode, rest: Seq<u8>|
            v.enc_wf() && r0.remaining() == #[trigger] (v.enc() + rest) implies b == op_first_byte(v) && r1.remaining() == op_imm_enc(v) + rest by {
            assert(v.enc() + rest =~= seq![op_first_byte(v)] + (op_imm_enc(v) + rest));
            assert(r0.remaining()[0] == op_first_byte(v));
            lemma_reader_advance(r0, r1, seq![op_first_byte(v)], op_imm_enc(v) + rest);
        }
    }

    if b == 0x41 {
        let x = match read_leb_i32(reader, 5) {
            Ok(x) => x,
            Err(e) => {
                proof {
                    assert forall|v: Opcode, rest: Seq<u8>| v.enc_wf() && r0.remaining() == #[trigger] (v.enc() + rest) implies false by {
                        lemma_byte_is_i32const(v);
                        let x0 = v->I32Const_0;
                        lemma_enc_leb_i32_len(x0);
                        lemma_leb_i32_round_trip(x0, rest, 5);
                    }
                }
                return Err(e);
            },
        };
        proof {
            assert forall|v: Opcode, rest: Seq<u8>|
                v.enc_wf() && r0.remaining() == #[trigger] (v.enc() + rest) implies Opcode::I32Const(x).deq(&v) && reader.position()
                == r0.position() + v.enc().len() by {
                lemma_byte_is_i32const(v);
                let x0 = v->I32Const_0;
                lemma_enc_leb_i32_len(x0);
                lemma_leb_i32_round_trip(x0, rest, 5);
            }
        }
        Ok(Opcode::I32Const(x))
    } else if b == 0x42 {
        let x = match read_leb_i64(reader, 10) {
            Ok(x) => x,
            Err(e) => {
                proof {
                    assert forall|v: Opcode, rest: Seq<u8>| v.enc_wf() && r0.remaining() == #[trigger] (v.enc() + rest) implies false by {
                        lemma_byte_is_i64const(v);
                        let x0 = v->I64Const_0;
                        lemma_enc_leb_i64_len(x0);
                        lemma_leb_i64_round_trip(x0, rest, 10);
                    }
                }
                return Err(e);
            },
        };
        proof {
            assert forall|v: Opcode, rest: Seq<u8>|
                v.enc_wf() && r0.remaining() == #[trigger] (v.enc() + rest) implies Opcode::I64Const(x).deq(&v) && reader.position()
                == r0.position() + v.enc().len() by {
                lemma_byte_is_i64const(v);
                let x0 = v->I64Const_0;
                lemma_enc_leb_i64_len(x0);
                lemma_leb_i64_round_trip(x0, rest, 10);
            }
        }
        Ok(Opcode::I64Const(x))
    } else if b == 0x43 {
        let bytes = match reader.read_bytes(4) {
            Ok(bs) => bs,
            Err(e) => {
                proof {
                    vstd::bytes::lemma_auto_spec_u32_to_from_le_bytes();
                    assert forall|v: Opcode, rest: Seq<u8>| v.enc_wf() && r0.remaining() == #[trigger] (v.enc() + rest) implies false by {
                        lemma_byte_is_f32const(v);
                    }
                }
                return Err(e);
            },
        };
        let x = vstd::bytes::u32_from_le_bytes(bytes.as_slice());
        proof {
            vstd::bytes::lemma_auto_spec_u32_to_from_le_bytes();
            assert forall|v: Opcode, rest: Seq<u8>|
                v.enc_wf() && r0.remaining() == #[trigger] (v.enc() + rest) implies Opcode::F32Const(x).deq(&v) && reader.position()
                == r0.position() + v.enc().len() by {
                lemma_byte_is_f32const(v);
                assert(bytes@ =~= op_imm_enc(v));
            }
        }
        Ok(Opcode::F32Const(x))
    } else {
        let bytes = match reader.read_bytes(8) {
            Ok(bs) => bs,
            Err(e) => {
                proof {
                    vstd::bytes::lemma_auto_spec_u64_to_from_le_bytes();
                    assert forall|v: Opcode, rest: Seq<u8>| v.enc_wf() && r0.remaining() == #[trigger] (v.enc() + rest) implies false by {
                        lemma_byte_is_f64const(v);
                    }
                }
                return Err(e);
            },
        };
        let x = vstd::bytes::u64_from_le_bytes(bytes.as_slice());
        proof {
            vstd::bytes::lemma_auto_spec_u64_to_from_le_bytes();
            assert forall|v: Opcode, rest: Seq<u8>|
                v.enc_wf() && r0.remaining() == #[trigger] (v.enc() + rest) implies Opcode::F64Const(x).deq(&v) && reader.position()
                == r0.position() + v.enc().len() by {
                lemma_byte_is_f64const(v);
                assert(bytes@ =~= op_imm_enc(v));
            }
        }
        Ok(Opcode::F64Const(x))
    }
}

impl Deserialize for Opcode {
    fn deserialize(reader: &mut Reader) -> (r: Result<Self, Error>) {
        let ghost r0 = *old(reader);
        let b = match reader.read_u8() {
            Ok(b) => b,
            Err(e) => {
                proof {
                    assert forall|v: Self, rest: Seq<u8>|
                        v.enc_wf() && r0.remaining() == #[trigger] (v.enc() + rest) implies false by {
                        assert(r0.remaining().len() > 0);
                    }
                }
                return Err(e);
            },
        };
        if 0x02 <= b && b <= 0x04 {
            read_op_block(reader, b, Ghost(r0))
        } else if b == 0x0c || b == 0x0d || b == 0x10 || (0x20 <= b && b <= 0x24) {
            read_op_u32(reader, b, Ghost(r0))
        } else if b == 0x0e {
            read_op_br_table(reader, b, Ghost(r0))
        } else if b == 0x11 {
            read_op_call_indirect(reader, b, Ghost(r0))
        } else if 0x28 <= b && b <= 0x3e {
            read_op_mem(reader, b, Ghost(r0))
        } else if b == 0x3f || b == 0x40 {
            read_op_raw(reader, b, Ghost(r0))
        } else if 0x41 <= b && b <= 0x44 {
            read_op_const(reader, b, Ghost(r0))
        } else {
            let ghost r1 = *reader;
            let r: Result<Self, Error> = match simple_opcode(b) {
                Some(op) => Ok(op),
                None => Err(Error::UnknownOpcode(b)),
            };
            proof {
                assert forall|v: Self, rest: Seq<u8>|
                    v.enc_wf() && r0.remaining() == #[trigger] (v.enc() + rest) implies r is Ok && r->Ok_0.deq(&v) && reader.position()
                    == r0.position() + v.enc().len() by {
                    assert(v.enc() + rest =~= seq![op_first_byte(v)] + (op_imm_enc(v) + rest));
                    assert(r0.remaining()[0] == op_first_byte(v));
                    lemma_wildcard_opcode(v, b);
                    assert(v.enc() =~= seq![op_first_byte(v)]);
                }
            }
            r
        }
    }
}


// ---------------------------------------------------------------------------
// Opcode sequences: init expressions and function bodies.
// ---------------------------------------------------------------------------

/// Shape of an initialization expression: a non-empty sequence whose one
/// and only `End` stands last.
pub open spec fn init_expr_wf(ops: Seq<Opcode>) -> bool {
    &&& ops.len() >= 1
    &&& ops[ops.len() - 1] == Opcode::End
    &&& forall|i: int| 0 <= i < ops.len() - 1 ==> !((#[trigger] ops[i]) == Opcode::End)
}

/// How one instruction changes the block nesting depth.
pub open spec fn opcode_delta(op: Opcode) -> int {
    if op.spec_is_block() {
        1
    } else if op.spec_is_terminal() {
        -1
    } else {
        0
    }
}

/// The nesting depth after the first `k` instructions of a body, starting
/// from the function's own implicit block.
pub open spec fn depth_after(ops: Seq<Opcode>, k: int) -> int
    decreases k,
{
    if k <= 0 {
        1
    } else {
        depth_after(ops, k - 1) + opcode_delta(ops[k - 1])
    }
}

/// Shape of a function body: the nesting stays open until the very last
/// instruction, whose `End` closes the function's own block.
pub open spec fn nested_wf(ops: Seq<Opcode>) -> bool {
    &&& ops.len() >= 1
    &&& forall|k: int| 0 <= k < ops.len() ==> #[trigger] depth_after(ops, k) >= 1
    &&& depth_after(ops, ops.len() as int) == 0
}

/// Instructions related by representation equality change depth alike.
proof fn lemma_deq_same_delta(a: Opcode, b: Opcode)
    requires
        a.deq(&b),
    ensures
        opcode_delta(a) == opcode_delta(b),
        a.spec_is_terminal() == b.spec_is_terminal(),
{
    if a is BrTable && b is BrTable {
    } else {
        assert(a == b);
    }
}

/// Read instructions up to and including the first `End`.
pub fn read_init_expr_ops(reader: &mut Reader) -> (r: Result<Vec<Opcode>, Error>)
    requires
        old(reader).wf(),
    ensures
        final(reader).wf(),
        final(reader).input() == old(reader).input(),
        final(reader).position() >= old(reader).position(),
        r is Ok ==> final(reader).position() > old(reader).position(),
        forall|ops: Seq<Opcode>, rest: Seq<u8>|
            init_expr_wf(ops) && list_wf(ops) && old(reader).remaining()
                == #[trigger] (enc_list(ops) + rest) ==> r is Ok
                && list_deq(r->Ok_0@, ops) && final(reader).position() == old(reader).position() + enc_list(ops).len(),
{
    let ghost r0 = *old(reader);
    let mut out: Vec<Opcode> = Vec::new();
    let mut done = false;
    proof {
        assert forall|ops: Seq<Opcode>, rest: Seq<u8>|
            init_expr_wf(ops) && list_wf(ops) && r0.remaining() == #[trigger] (enc_list(ops)
                + rest) implies reader.remaining() == enc_list(ops.skip(0int)) + rest by {
            assert(ops.skip(0int) =~= ops);
        }
    }
    while !done
        invariant
            r0 == *old(reader),
            r0.wf(),
            reader.wf(),
            reader.input() == r0.input(),
            reader.position() >= r0.position(),
            done ==> reader.position() > r0.position(),
            forall|ops: Seq<Opcode>, rest: Seq<u8>|
                init_expr_wf(ops) && list_wf(ops) && r0.remaining() == #[trigger] (enc_list(ops)
                    + rest) ==> {
                    if done {
                        list_deq(out@, ops) && reader.position() == r0.position() + enc_list(
                            ops,
                        ).len()
                    } else {
                        &&& out@.len() < ops.len()
                        &&& list_deq(out@, ops.take(out@.len() as int))
                        &&& reader.remaining() == enc_list(ops.skip(out@.len() as int)) + rest
                    }
                },
        decreases reader.input().len() - reader.position(),
    {
        let ghost pre = *reader;
        let ghost k = out@.len() as int;
        let op = match Opcode::deserialize(reader) {
            Ok(op) => op,
            Err(e) => {
                proof {
                    assert forall|ops: Seq<Opcode>, rest: Seq<u8>|
                        init_expr_wf(ops) && list_wf(ops) && r0.remaining() == #[trigger] (
                        enc_list(ops) + rest) implies false by {
                        lemma_enc_list_first(ops, k);
                        assert(pre.remaining() == ops[k].enc() + (enc_list(ops.skip(k + 1))
                            + rest));
                    }
                }
                return Err(e);
            },
        };
        let terminal = op.is_terminal();
        out.push(op);
        if terminal {
            done = true;
        }
        proof {
            assert forall|ops: Seq<Opcode>, rest: Seq<u8>|
                init_expr_wf(ops) && list_wf(ops) && r0.remaining() == #[trigger] (enc_list(ops)
                    + rest) implies {
                if done {
                    list_deq(out@, ops) && reader.position() == r0.position() + enc_list(ops).len()
                } else {
                    &&& out@.len() < ops.len()
                    &&& list_deq(out@, ops.take(out@.len() as int))
                    &&& reader.remaining() == enc_list(ops.skip(out@.len() as int)) + rest
                }
            } by {
                lemma_enc_list_first(ops, k);
                assert(pre.remaining() == ops[k].enc() + (enc_list(ops.skip(k + 1)) + rest));
                lemma_reader_advance(pre, *reader, ops[k].enc(), enc_list(ops.skip(k + 1)) + rest);
                let got = out@[k];
                assert(got.deq(&ops[k]));
                lemma_deq_same_delta(got, ops[k]);
                assert(out@.drop_last() =~= out@.take(k));
                assert forall|j: int| 0 <= j < k + 1 implies (#[trigger] out@[j]).deq(
                    &ops.take(k + 1)[j],
                ) by {
                    if j < k {
                        assert(out@[j] == out@.take(k)[j]);
                    }
                }
                if terminal {
                    assert(ops[k] == Opcode::End);
                    assert(k == ops.len() - 1);
                    assert(out@.len() == ops.len());
                    assert(ops.take(k + 1) =~= ops);
                    assert(ops.skip(k + 1) =~= Seq::<Opcode>::empty());
                    assert(enc_list(ops.skip(k + 1)) =~= Seq::<u8>::empty());
                    assert(reader.remaining() =~= rest);
                    assert(r0.remaining().len() - reader.remaining().len() == enc_list(ops).len());
                    lemma_remaining_len(r0);
                    lemma_remaining_len(*reader);
                } else {
                    assert(!(ops[k] == Opcode::End));
                    assert(k + 1 < ops.len());
                }
            }
        }
    }
    Ok(out)
}

/// Read instructions up to and including the `End` that closes the
/// function's own block, tracking nesting.
pub fn read_nested_ops(reader: &mut Reader) -> (r: Result<Vec<Opcode>, Error>)
    requires
        old(reader).wf(),
    ensures
        final(reader).wf(),
        final(reader).input() == old(reader).input(),
        final(reader).position() >= old(reader).position(),
        r is Ok ==> final(reader).position() > old(reader).position(),
        forall|ops: Seq<Opcode>, rest: Seq<u8>|
            nested_wf(ops) && list_wf(ops) && old(reader).remaining()
                == #[trigger] (enc_list(ops) + rest) ==> r is Ok
                && list_deq(r->Ok_0@, ops) && final(reader).position() == old(reader).position() + enc_list(ops).len(),
{
    let ghost r0 = *old(reader);
    let mut out: Vec<Opcode> = Vec::new();
    let mut count: u128 = 1;
    proof {
        assert forall|ops: Seq<Opcode>, rest: Seq<u8>|
            nested_wf(ops) && list_wf(ops) && r0.remaining() == #[trigger] (enc_list(ops) + rest)
                implies reader.remaining() == enc_list(ops.skip(0int)) + rest by {
            assert(ops.skip(0int) =~= ops);
        }
    }
    while count > 0
        invariant
            r0 == *old(reader),
            r0.wf(),
            reader.wf(),
            reader.input() == r0.input(),
            reader.position() >= r0.position(),
            count as int <= 1 + reader.position() - r0.position(),
            count == 0 ==> reader.position() > r0.position(),
            forall|ops: Seq<Opcode>, rest: Seq<u8>|
                nested_wf(ops) && list_wf(ops) && r0.remaining() == #[trigger] (enc_list(ops)
                    + rest) ==> {
                    &&& out@.len() <= ops.len()
                    &&& count as int == depth_after(ops, out@.len() as int)
                    &&& list_deq(out@, ops.take(out@.len() as int))
                    &&& reader.remaining() == enc_list(ops.skip(out@.len() as int)) + rest
                    &&& (count == 0 ==> out@.len() == ops.len() && reader.position()
                        == r0.position() + enc_list(ops).len())
                },
        decreases reader.input().len() - reader.position(),
    {
        let ghost pre = *reader;
        let ghost k = out@.len() as int;
        proof {
            assert forall|ops: Seq<Opcode>, rest: Seq<u8>|
                nested_wf(ops) && list_wf(ops) && r0.remaining() == #[trigger] (enc_list(ops)
                    + rest) implies k < ops.len() by {
                if k >= ops.len() {
                    assert(depth_after(ops, ops.len() as int) == 0);
                }
            }
        }
        let op = match Opcode::deserialize(reader) {
            Ok(op) => op,
            Err(e) => {
                proof {
                    assert forall|ops: Seq<Opcode>, rest: Seq<u8>|
                        nested_wf(ops) && list_wf(ops) && r0.remaining() == #[trigger] (enc_list(
                            ops,
                        ) + rest) implies false by {
                        lemma_enc_list_first(ops, k);
                        assert(pre.remaining() == ops[k].enc() + (enc_list(ops.skip(k + 1))
                            + rest));
                    }
                }
                return Err(e);
            },
        };
        let is_block = op.is_block();
        let is_terminal = op.is_terminal();
        out.push(op);
        proof {
            assert(count as int <= 1 + pre.position() - r0.position());
            assert(pre.position() <= usize::MAX);
            assert(usize::MAX as int <= u64::MAX as int);
            assert(count as int <= 2 + u64::MAX as int);
            assert(count < u128::MAX);
        }
        if is_block {
            count = count + 1;
        } else if is_terminal {
            count = count - 1;
        }
        proof {
            assert forall|ops: Seq<Opcode>, rest: Seq<u8>|
                nested_wf(ops) && list_wf(ops) && r0.remaining() == #[trigger] (enc_list(ops)
                    + rest) implies {
                &&& out@.len() <= ops.len()
                &&& count as int == depth_after(ops, out@.len() as int)
                &&& list_deq(out@, ops.take(out@.len() as int))
                &&& reader.remaining() == enc_list(ops.skip(out@.len() as int)) + rest
                &&& (count == 0 ==> out@.len() == ops.len() && reader.position() == r0.position()
                    + enc_list(ops).len())
            } by {
                lemma_enc_list_first(ops, k);
                assert(pre.remaining() == ops[k].enc() + (enc_list(ops.skip(k + 1)) + rest));
                lemma_reader_advance(pre, *reader, ops[k].enc(), enc_list(ops.skip(k + 1)) + rest);
                let got = out@[k];
                assert(got.deq(&ops[k]));
                lemma_deq_same_delta(got, ops[k]);
                assert(out@.drop_last() =~= out@.take(k));
                assert forall|j: int| 0 <= j < k + 1 implies (#[trigger] out@[j]).deq(
                    &ops.take(k + 1)[j],
                ) by {
                    if j < k {
                        assert(out@[j] == out@.take(k)[j]);
                    }
                }
                assert(depth_after(ops, k + 1) == depth_after(ops, k) + opcode_delta(ops[k]));
                if count == 0 {
                    if k + 1 < ops.len() {
                        assert(depth_after(ops, k + 1) >= 1);
                    }
                    assert(out@.len() == ops.len());
                    assert(ops.take(k + 1) =~= ops);
                    assert(ops.skip(k + 1) =~= Seq::<Opcode>::empty());
                    assert(enc_list(ops.skip(k + 1)) =~= Seq::<u8>::empty());
                    assert(reader.remaining() =~= rest);
                    assert(r0.remaining().len() - reader.remaining().len() == enc_list(ops).len());
                    lemma_remaining_len(r0);
                    lemma_remaining_len(*reader);
                }
            }
        }
    }
    Ok(out)
}

/// A constant expression that initializes a global or a segment offset,
/// terminated by `End`.
#[derive(Clone, Debug, PartialEq)]
pub struct InitExpr(pub Vec<Opcode>);

impl InitExpr {
    /// New init expression from a list of instructions.
    pub fn new(code: Vec<Opcode>) -> (r: Self)
        ensures
            r.0 == code,
    {
        InitExpr(code)
    }

    /// The expression holding nothing but the terminating `End`.
    pub fn empty() -> (r: Self)
        ensures
            r.0@ =~= seq![Opcode::End],
    {
        let mut code: Vec<Opcode> = Vec::new();
        code.push(Opcode::End);
        InitExpr(code)
    }

    /// The instructions of the expression, terminator included.
    pub fn code(&self) -> (r: &Vec<Opcode>)
        ensures
            r == &self.0,
    {
        &self.0
    }
}

impl Serialize for InitExpr {
    open spec fn enc(&self) -> Seq<u8> {
        enc_list(self.0@)
    }

    open spec fn deq(&self, other: &Self) -> bool {
        list_deq(self.0@, other.0@)
    }

    open spec fn enc_wf(&self) -> bool {
        init_expr_wf(self.0@) && list_wf(self.0@)
    }

    fn serialize(&self, out: &mut Vec<u8>) {
        serialize_op_seq(&self.0, out);
    }
}

impl Deserialize for InitExpr {
    fn deserialize(reader: &mut Reader) -> (r: Result<Self, Error>) {
        match read_init_expr_ops(reader) {
            Ok(code) => Ok(InitExpr(code)),
            Err(e) => Err(e),
        }
    }
}

/// A function body's instruction sequence, terminated by the `End` that
/// closes the function block.
#[derive(Clone, Debug, PartialEq)]
pub struct Opcodes(pub Vec<Opcode>);

impl Opcodes {
    /// New instruction sequence.
    pub fn new(elements: Vec<Opcode>) -> (r: Self)
        ensures
            r.0 == elements,
    {
        Opcodes(elements)
    }

    /// The instructions, in order.
    pub fn elements(&self) -> (r: &Vec<Opcode>)
        ensures
            r == &self.0,
    {
        &self.0
    }

    /// The instructions, mutable.
    pub fn elements_mut(&mut self) -> (r: &mut Vec<Opcode>)
        ensures
            *r == old(self).0,
            final(self).0 == *final(r),
    {
        &mut self.0
    }
}

impl Serialize for Opcodes {
    open spec fn enc(&self) -> Seq<u8> {
        enc_list(self.0@)
    }

    open spec fn deq(&self, other: &Self) -> bool {
        list_deq(self.0@, other.0@)
    }

    open spec fn enc_wf(&self) -> bool {
        nested_wf(self.0@) && list_wf(self.0@)
    }

    fn serialize(&self, out: &mut Vec<u8>) {
        serialize_op_seq(&self.0, out);
    }
}

impl Deserialize for Opcodes {
    fn deserialize(reader: &mut Reader) -> (r: Result<Self, Error>) {
        match read_nested_ops(reader) {
            Ok(code) => Ok(Opcodes(code)),
            Err(e) => Err(e),
        }
    }
}

/// Serialize a bare instruction sequence, with no count or length prefix.
pub fn serialize_op_seq(ops: &Vec<Opcode>, out: &mut Vec<u8>)
    requires
        list_wf(ops@),
    ensures
        final(out)@ == old(out)@ + enc_list(ops@),
{
    let n = ops.len();
    let mut i: usize = 0;
    proof {
        assert(enc_list(ops@.take(0int)) =~= Seq::<u8>::empty());
        assert(out@ =~= old(out)@ + enc_list(ops@.take(0int)));
    }
    while i < n
        invariant
            i <= n,
            n == ops@.len(),
            list_wf(ops@),
            out@ == old(out)@ + enc_list(ops@.take(i as int)),
        decreases n - i,
    {
        let op = &ops[i];
        op.serialize(out);
        proof {
            lemma_enc_list_take_succ(ops@, i as int);
            assert(out@ =~= old(out)@ + enc_list(ops@.take(i + 1int)));
        }
        i = i + 1;
    }
    proof {
        assert(ops@.take(n as int) =~= ops@);
    }
}

} // verus!
