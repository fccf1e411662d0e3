//! Import entries and the table, memory, and global types they carry.

use vstd::prelude::*;
use crate::elements::error::Error;
use crate::elements::io::{Reader, lemma_reader_advance};
use crate::elements::primitives::{
    VarInt7, VarUint1, VarUint7, enc_leb_u32, lemma_enc_leb_u32_len, lemma_leb_u32_round_trip,
    lemma_vi7_code_bytes, read_leb_u32, vi7_to_byte, write_leb_u32,
};
use crate::elements::traits::{Deserialize, Serialize};
use crate::elements::types::ValueType;

verus! {

/// Memory and table limits: a required minimum and an optional maximum.
#[derive(Copy, Clone, Debug, PartialEq, Eq, Structural)]
pub struct ResizableLimits {
    /// The initial size.
    pub initial: u32,
    /// The size the instance may never grow beyond, if any.
    pub maximum: Option<u32>,
}

impl ResizableLimits {
    /// New limits.
    pub fn new(min: u32, max: Option<u32>) -> (r: Self)
        ensures
            r.initial == min,
            r.maximum == max,
    {
        ResizableLimits { initial: min, maximum: max }
    }

    /// The initial size.
    pub fn initial(&self) -> (r: u32)
        ensures
            r == self.initial,
    {
        self.initial
    }

    /// The optional maximum size.
    pub fn maximum(&self) -> (r: Option<u32>)
        ensures
            r == self.maximum,
    {
        self.maximum
    }
}

impl Serialize for ResizableLimits {
    open spec fn enc(&self) -> Seq<u8> {
        enc_leb_u32(if self.maximum is Some { 1u32 } else { 0u32 }) + enc_leb_u32(self.initial)
            + (match self.maximum {
            Option::Some(m) => enc_leb_u32(m),
            Option::None => Seq::empty(),
        })
    }

    open spec fn enc_wf(&self) -> bool {
        true
    }

    fn serialize(&self, out: &mut Vec<u8>) {
        write_leb_u32(out, if self.maximum.is_some() { 1 } else { 0 });
        write_leb_u32(out, self.initial);
        match self.maximum {
            Option::Some(m) => {
                write_leb_u32(out, m);
            },
            Option::None => {},
        }
        proof {
            assert(out@ =~= old(out)@ + self.enc());
        }
    }
}

impl Deserialize for ResizableLimits {
    fn deserialize(reader: &mut Reader) -> (r: Result<Self, Error>) {
        let ghost r0 = *old(reader);
        proof {
            assert forall|v: Self, rest: Seq<u8>|
                v.enc_wf() && r0.remaining() == #[trigger] (v.enc() + rest) implies r0.remaining()
                == enc_leb_u32(if v.maximum is Some { 1u32 } else { 0u32 }) + (enc_leb_u32(
                v.initial,
            ) + ((match v.maximum {
                Option::Some(m) => enc_leb_u32(m),
                Option::None => Seq::empty(),
            }) + rest)) by {
                assert(v.enc() + rest =~= enc_leb_u32(if v.maximum is Some { 1u32 } else { 0u32 })
                    + (enc_leb_u32(v.initial) + ((match v.maximum {
                    Option::Some(m) => enc_leb_u32(m),
                    Option::None => Seq::empty(),
                }) + rest)));
            }
        }
        let flags = match read_leb_u32(reader, 5) {
            Ok(f) => f,
            Err(e) => {
                proof {
                    assert forall|v: Self, rest: Seq<u8>|
                        v.enc_wf() && r0.remaining() == #[trigger] (v.enc() + rest)
                            implies false by {
                        let f0: u32 = if v.maximum is Some { 1u32 } else { 0u32 };
                        lemma_enc_leb_u32_len(f0);
                        lemma_leb_u32_round_trip(f0, r0.remaining().skip(enc_leb_u32(f0).len() as int), 5);
                        assert(r0.remaining() =~= enc_leb_u32(f0) + r0.remaining().skip(
                            enc_leb_u32(f0).len() as int,
                        ));
                    }
                }
                return Err(e);
            },
        };
        let ghost r1 = *reader;
        proof {
            assert forall|v: Self, rest: Seq<u8>|
                v.enc_wf() && r0.remaining() == #[trigger] (v.enc() + rest) implies flags == (
            if v.maximum is Some { 1u32 } else { 0u32 }) && r1.remaining() == enc_leb_u32(
                v.initial,
            ) + ((match v.maximum {
                Option::Some(m) => enc_leb_u32(m),
                Option::None => Seq::empty(),
            }) + rest) by {
                let f0: u32 = if v.maximum is Some { 1u32 } else { 0u32 };
                let tail = enc_leb_u32(v.initial) + ((match v.maximum {
                    Option::Some(m) => enc_leb_u32(m),
                    Option::None => Seq::empty(),
                }) + rest);
                lemma_enc_leb_u32_len(f0);
                lemma_leb_u32_round_trip(f0, tail, 5);
                lemma_reader_advance(r0, r1, enc_leb_u32(f0), tail);
            }
        }
        let initial = match read_leb_u32(reader, 5) {
            Ok(m) => m,
            Err(e) => {
                proof {
                    assert forall|v: Self, rest: Seq<u8>|
                        v.enc_wf() && r0.remaining() == #[trigger] (v.enc() + rest)
                            implies false by {
                        lemma_enc_leb_u32_len(v.initial);
                        lemma_leb_u32_round_trip(v.initial, (match v.maximum {
                            Option::Some(m) => enc_leb_u32(m),
                            Option::None => Seq::empty(),
                        }) + rest, 5);
                    }
                }
                return Err(e);
            },
        };
        let ghost r2 = *reader;
        proof {
            assert forall|v: Self, rest: Seq<u8>|
                v.enc_wf() && r0.remaining() == #[trigger] (v.enc() + rest) implies initial
                == v.initial && r2.remaining() == (match v.maximum {
                Option::Some(m) => enc_leb_u32(m),
                Option::None => Seq::empty(),
            }) + rest by {
                let tail = (match v.maximum {
                    Option::Some(m) => enc_leb_u32(m),
                    Option::None => Seq::empty(),
                }) + rest;
                lemma_enc_leb_u32_len(v.initial);
                lemma_leb_u32_round_trip(v.initial, tail, 5);
                lemma_reader_advance(r1, r2, enc_leb_u32(v.initial), tail);
            }
        }
        let maximum: Option<u32> = if flags & 0x1 != 0 {
            match read_leb_u32(reader, 5) {
                Ok(m) => Some(m),
                Err(e) => {
                    proof {
                        assert forall|v: Self, rest: Seq<u8>|
                            v.enc_wf() && r0.remaining() == #[trigger] (v.enc() + rest)
                                implies false by {
                            assert(1u32 & 0x1 != 0 && 0u32 & 0x1 == 0) by (bit_vector);
                            assert(v.maximum is Some);
                            let m0 = v.maximum->0;
                            lemma_enc_leb_u32_len(m0);
                            lemma_leb_u32_round_trip(m0, rest, 5);
                        }
                    }
                    return Err(e);
                },
            }
        } else {
            None
        };
        let result = ResizableLimits { initial, maximum };
        proof {
            assert(1u32 & 0x1 != 0 && 0u32 & 0x1 == 0) by (bit_vector);
            assert forall|v: Self, rest: Seq<u8>|
                v.enc_wf() && r0.remaining() == #[trigger] (v.enc() + rest) implies result == v
                && reader.position() == r0.position() + v.enc().len() by {
                if v.maximum is Some {
                    let m0 = v.maximum->0;
                    lemma_enc_leb_u32_len(m0);
                    lemma_leb_u32_round_trip(m0, rest, 5);
                }
            }
        }
        Ok(result)
    }
}

/// Type of a table: its element kind byte and its limits.
#[derive(Copy, Clone, Debug, PartialEq, Eq, Structural)]
pub struct TableType {
    /// The element-kind byte, preserved as read.
    pub elem_type: i8,
    /// The table's size limits.
    pub limits: ResizableLimits,
}

impl TableType {
    /// New table of callable references with the given limits.
    pub fn new(min: u32, max: Option<u32>) -> (r: Self)
        ensures
            r.elem_type == -0x10i8,
            r.limits == (ResizableLimits { initial: min, maximum: max }),
    {
        TableType { elem_type: -0x10, limits: ResizableLimits::new(min, max) }
    }

    /// The table's size limits.
    pub fn limits(&self) -> (r: &ResizableLimits)
        ensures
            r == &self.limits,
    {
        &self.limits
    }

    /// The element-kind byte.
    pub fn elem_type(&self) -> (r: i8)
        ensures
            r == self.elem_type,
    {
        self.elem_type
    }
}

impl Serialize for TableType {
    open spec fn enc(&self) -> Seq<u8> {
        seq![vi7_to_byte(self.elem_type)] + self.limits.enc()
    }

    open spec fn enc_wf(&self) -> bool {
        -64 <= self.elem_type < 64
    }

    fn serialize(&self, out: &mut Vec<u8>) {
        VarInt7(self.elem_type).serialize(out);
        self.limits.serialize(out);
        proof {
            assert(out@ =~= old(out)@ + self.enc());
        }
    }
}

impl Deserialize for TableType {
    fn deserialize(reader: &mut Reader) -> (r: Result<Self, Error>) {
        let ghost r0 = *old(reader);
        let elem_type = match VarInt7::deserialize(reader) {
            Ok(b) => b.0,
            Err(e) => { return Err(e); },
        };
        let ghost r1 = *reader;
        proof {
            assert forall|v: Self, rest: Seq<u8>|
                v.enc_wf() && r0.remaining() == #[trigger] (v.enc() + rest) implies elem_type
                == v.elem_type && r1.remaining() == v.limits.enc() + rest by {
                assert(v.enc() + rest =~= seq![vi7_to_byte(v.elem_type)] + (v.limits.enc()
                    + rest));
                assert(r0.remaining()[0] == vi7_to_byte(v.elem_type));
                crate::elements::primitives::lemma_vi7_round_trip(v.elem_type);
                lemma_reader_advance(r0, r1, seq![vi7_to_byte(v.elem_type)], v.limits.enc()
                    + rest);
            }
        }
        let limits = match ResizableLimits::deserialize(reader) {
            Ok(l) => l,
            Err(e) => {
                proof {
                    assert forall|v: Self, rest: Seq<u8>|
                        v.enc_wf() && r0.remaining() == #[trigger] (v.enc() + rest)
                            implies false by {
                        assert(r1.remaining() == v.limits.enc() + rest);
                    }
                }
                return Err(e);
            },
        };
        proof {
            assert forall|v: Self, rest: Seq<u8>|
                v.enc_wf() && r0.remaining() == #[trigger] (v.enc() + rest)
                    implies (TableType { elem_type, limits }) == v && reader.position()
                == r0.position() + v.enc().len() by {
                assert(r1.remaining() == v.limits.enc() + rest);
            }
        }
        Ok(TableType { elem_type, limits })
    }
}

/// Type of a linear memory: its limits, counted in 64 KiB pages.
#[derive(Copy, Clone, Debug, PartialEq, Eq, Structural)]
pub struct MemoryType(pub ResizableLimits);

impl MemoryType {
    /// New memory type with the given page limits.
    pub fn new(min: u32, max: Option<u32>) -> (r: Self)
        ensures
            r.0 == (ResizableLimits { initial: min, maximum: max }),
    {
        MemoryType(ResizableLimits::new(min, max))
    }

    /// The memory's page limits.
    pub fn limits(&self) -> (r: &ResizableLimits)
        ensures
            r == &self.0,
    {
        &self.0
    }
}

impl Serialize for MemoryType {
    open spec fn enc(&self) -> Seq<u8> {
        self.0.enc()
    }

    open spec fn enc_wf(&self) -> bool {
        true
    }

    fn serialize(&self, out: &mut Vec<u8>) {
        self.0.serialize(out);
    }
}

impl Deserialize for MemoryType {
    fn deserialize(reader: &mut Reader) -> (r: Result<Self, Error>) {
        let limits = match ResizableLimits::deserialize(reader) {
            Ok(l) => l,
            Err(e) => { return Err(e); },
        };
        proof {
            assert forall|v: Self, rest: Seq<u8>|
                v.enc_wf() && old(reader).remaining() == #[trigger] (v.enc() + rest)
                    implies MemoryType(limits) == v by {
                assert(old(reader).remaining() == v.0.enc() + rest);
            }
        }
        Ok(MemoryType(limits))
    }
}

/// Type of a global variable: its value type and whether it may be written.
#[derive(Copy, Clone, Debug, PartialEq, Eq, Structural)]
pub struct GlobalType {
    /// The type of the value the global holds.
    pub content_type: ValueType,
    /// Whether the global may be assigned after initialization.
    pub is_mutable: bool,
}

impl GlobalType {
    /// New global type.
    pub fn new(content_type: ValueType, is_mutable: bool) -> (r: Self)
        ensures
            r.content_type == content_type,
            r.is_mutable == is_mutable,
    {
        GlobalType { content_type, is_mutable }
    }

    /// The type of the value the global holds.
    pub fn content_type(&self) -> (r: ValueType)
        ensures
            r == self.content_type,
    {
        self.content_type
    }

    /// Whether the global may be assigned after initialization.
    pub fn is_mutable(&self) -> (r: bool)
        ensures
            r == self.is_mutable,
    {
        self.is_mutable
    }
}

impl Serialize for GlobalType {
    open spec fn enc(&self) -> Seq<u8> {
        self.content_type.enc() + VarUint1(self.is_mutable).enc()
    }

    open spec fn enc_wf(&self) -> bool {
        true
    }

    fn serialize(&self, out: &mut Vec<u8>) {
        self.content_type.serialize(out);
        VarUint1(self.is_mutable).serialize(out);
        proof {
            assert(out@ =~= old(out)@ + self.enc());
        }
    }
}

impl Deserialize for GlobalType {
    fn deserialize(reader: &mut Reader) -> (r: Result<Self, Error>) {
        let ghost r0 = *old(reader);
        let content_type = match ValueType::deserialize(reader) {
            Ok(t) => t,
            Err(e) => {
                proof {
                    assert forall|v: Self, rest: Seq<u8>|
                        v.enc_wf() && r0.remaining() == #[trigger] (v.enc() + rest)
                            implies false by {
                        assert(r0.remaining() =~= v.content_type.enc() + (VarUint1(
                            v.is_mutable,
                        ).enc() + rest));
                    }
                }
                return Err(e);
            },
        };
        let ghost r1 = *reader;
        proof {
            assert forall|v: Self, rest: Seq<u8>|
                v.enc_wf() && r0.remaining() == #[trigger] (v.enc() + rest) implies content_type
                == v.content_type && r1.remaining() == VarUint1(v.is_mutable).enc() + rest
                && r1.position() == r0.position() + v.content_type.enc().len() by {
                assert(r0.remaining() =~= v.content_type.enc() + (VarUint1(v.is_mutable).enc()
                    + rest));
                lemma_reader_advance(r0, r1, v.content_type.enc(), VarUint1(v.is_mutable).enc()
                    + rest);
            }
        }
        let is_mutable = match VarUint1::deserialize(reader) {
            Ok(b) => b.0,
            Err(e) => {
                proof {
                    assert forall|v: Self, rest: Seq<u8>|
                        v.enc_wf() && r0.remaining() == #[trigger] (v.enc() + rest)
                            implies false by {
                        assert(r1.remaining() == VarUint1(v.is_mutable).enc() + rest);
                    }
                }
                return Err(e);
            },
        };
        proof {
            assert forall|v: Self, rest: Seq<u8>|
                v.enc_wf() && r0.remaining() == #[trigger] (v.enc() + rest)
                    implies (GlobalType { content_type, is_mutable }) == v && reader.position()
                == r0.position() + v.enc().len() by {
                assert(r1.remaining() == VarUint1(v.is_mutable).enc() + rest);
            }
        }
        Ok(GlobalType { content_type, is_mutable })
    }
}

/// What an import brings into the module.
#[derive(Copy, Clone, Debug, PartialEq, Eq, Structural)]
pub enum External {
    /// A function with the given type index.
    Function(u32),
    /// A table.
    Table(TableType),
    /// A linear memory.
    Memory(MemoryType),
    /// A global variable.
    Global(GlobalType),
}

impl Serialize for External {
    open spec fn enc(&self) -> Seq<u8> {
        match self {
            External::Function(i) => seq![0u8] + enc_leb_u32(*i),
            External::Table(t) => seq![1u8] + t.enc(),
            External::Memory(m) => seq![2u8] + m.enc(),
            External::Global(g) => seq![3u8] + g.enc(),
        }
    }

    open spec fn enc_wf(&self) -> bool {
        match self {
            External::Table(t) => t.enc_wf(),
            _ => true,
        }
    }

    fn serialize(&self, out: &mut Vec<u8>) {
        match self {
            External::Function(i) => {
                out.push(0);
                write_leb_u32(out, *i);
            },
            External::Table(t) => {
                out.push(1);
                t.serialize(out);
            },
            External::Memory(m) => {
                out.push(2);
                m.serialize(out);
            },
            External::Global(g) => {
                out.push(3);
                g.serialize(out);
            },
        }
        proof {
            assert(out@ =~= old(out)@ + self.enc());
        }
    }
}

impl Deserialize for External {
    #[verifier::rlimit(100)]
    fn deserialize(reader: &mut Reader) -> (r: Result<Self, Error>) {
        let ghost r0 = *old(reader);
        let kind = match VarUint7::deserialize(reader) {
            Ok(k) => k.0,
            Err(e) => {
                proof {
                    assert forall|v: Self, rest: Seq<u8>|
                        v.enc_wf() && r0.remaining() == #[trigger] (v.enc() + rest)
                            implies false by {
                        assert(r0.remaining().len() > 0);
                    }
                }
                return Err(e);
            },
        };
        let ghost r1 = *reader;
        proof {
            assert forall|v: Self, rest: Seq<u8>|
                v.enc_wf() && r0.remaining() == #[trigger] (v.enc() + rest) implies kind
                == v.enc()[0] && r1.remaining() == v.enc().skip(1) + rest by {
                assert(v.enc() =~= seq![v.enc()[0]] + v.enc().skip(1));
                assert(v.enc() + rest =~= seq![v.enc()[0]] + (v.enc().skip(1) + rest));
                assert(r0.remaining()[0] == v.enc()[0]);
                lemma_reader_advance(r0, r1, seq![v.enc()[0]], v.enc().skip(1) + rest);
            }
        }
        match kind {
            0 => {
                let i = match read_leb_u32(reader, 5) {
                    Ok(i) => i,
                    Err(e) => {
                        proof {
                            assert forall|v: Self, rest: Seq<u8>|
                                v.enc_wf() && r0.remaining() == #[trigger] (v.enc() + rest)
                                    implies false by {
                                let i0 = v->Function_0;
                                lemma_enc_leb_u32_len(i0);
                                lemma_leb_u32_round_trip(i0, rest, 5);
                                assert(v.enc().skip(1) =~= enc_leb_u32(i0));
                            }
                        }
                        return Err(e);
                    },
                };
                proof {
                    assert forall|v: Self, rest: Seq<u8>|
                        v.enc_wf() && r0.remaining() == #[trigger] (v.enc() + rest)
                            implies External::Function(i) == v && reader.position()
                        == r0.position() + v.enc().len() by {
                        let i0 = v->Function_0;
                        lemma_enc_leb_u32_len(i0);
                        lemma_leb_u32_round_trip(i0, rest, 5);
                        assert(v.enc().skip(1) =~= enc_leb_u32(i0));
                    }
                }
                Ok(External::Function(i))
            },
            1 => {
                let t = match TableType::deserialize(reader) {
                    Ok(t) => t,
                    Err(e) => {
                        proof {
                            assert forall|v: Self, rest: Seq<u8>|
                                v.enc_wf() && r0.remaining() == #[trigger] (v.enc() + rest)
                                    implies false by {
                                let t0 = v->Table_0;
                                assert(v.enc().skip(1) =~= t0.enc());
                            }
                        }
                        return Err(e);
                    },
                };
                proof {
                    assert forall|v: Self, rest: Seq<u8>|
                        v.enc_wf() && r0.remaining() == #[trigger] (v.enc() + rest)
                            implies External::Table(t) == v && reader.position() == r0.position()
                        + v.enc().len() by {
                        let t0 = v->Table_0;
                        assert(v.enc().skip(1) =~= t0.enc());
                    }
                }
                Ok(External::Table(t))
            },
            2 => {
                let m = match MemoryType::deserialize(reader) {
                    Ok(m) => m,
                    Err(e) => {
                        proof {
                            assert forall|v: Self, rest: Seq<u8>|
                                v.enc_wf() && r0.remaining() == #[trigger] (v.enc() + rest)
                                    implies false by {
                                let m0 = v->Memory_0;
                                assert(v.enc().skip(1) =~= m0.enc());
                            }
                        }
                        return Err(e);
                    },
                };
                proof {
                    assert forall|v: Self, rest: Seq<u8>|
                        v.enc_wf() && r0.remaining() == #[trigger] (v.enc() + rest)
                            implies External::Memory(m) == v && reader.position() == r0.position()
                        + v.enc().len() by {
                        let m0 = v->Memory_0;
                        assert(v.enc().skip(1) =~= m0.enc());
                    }
                }
                Ok(External::Memory(m))
            },
            3 => {
                let g = match GlobalType::deserialize(reader) {
                    Ok(g) => g,
                    Err(e) => {
                        proof {
                            assert forall|v: Self, rest: Seq<u8>|
                                v.enc_wf() && r0.remaining() == #[trigger] (v.enc() + rest)
                                    implies false by {
                                let g0 = v->Global_0;
                                assert(v.enc().skip(1) =~= g0.enc());
                            }
                        }
                        return Err(e);
                    },
                };
                proof {
                    assert forall|v: Self, rest: Seq<u8>|
                        v.enc_wf() && r0.remaining() == #[trigger] (v.enc() + rest)
                            implies External::Global(g) == v && reader.position() == r0.position()
                        + v.enc().len() by {
                        let g0 = v->Global_0;
                        assert(v.enc().skip(1) =~= g0.enc());
                    }
                }
                Ok(External::Global(g))
            },
            other => {
                proof {
                    assert forall|v: Self, rest: Seq<u8>|
                        v.enc_wf() && r0.remaining() == #[trigger] (v.enc() + rest)
                            implies false by {
                        assert(v.enc()[0] == 0 || v.enc()[0] == 1 || v.enc()[0] == 2 || v.enc()[0]
                            == 3);
                    }
                }
                Err(Error::UnknownExternalKind(other))
            },
        }
    }
}

/// One import: the module and field it comes from, and what it brings.
#[derive(Clone, Debug, PartialEq)]
pub struct ImportEntry {
    /// The module part of the import path.
    pub module: String,
    /// The field part of the import path.
    pub field: String,
    /// What the import brings into the module.
    pub external: External,
}

impl ImportEntry {
    /// New import entry.
    pub fn new(module: String, field: String, external: External) -> (r: Self)
        ensures
            r.module == module,
            r.field == field,
            r.external == external,
    {
        ImportEntry { module, field, external }
    }

    /// The module part of the import path.
    pub fn module(&self) -> (r: &str)
        ensures
            r@ == self.module@,
    {
        self.module.as_str()
    }

    /// The field part of the import path.
    pub fn field(&self) -> (r: &str)
        ensures
            r@ == self.field@,
    {
        self.field.as_str()
    }

    /// What the import brings into the module.
    pub fn external(&self) -> (r: &External)
        ensures
            r == &self.external,
    {
        &self.external
    }
}

impl Serialize for ImportEntry {
    open spec fn enc(&self) -> Seq<u8> {
        self.module.enc() + self.field.enc() + self.external.enc()
    }

    open spec fn deq(&self, other: &Self) -> bool {
        self.module@ == other.module@ && self.field@ == other.field@ && self.external
            == other.external
    }

    open spec fn enc_wf(&self) -> bool {
        self.module.enc_wf() && self.field.enc_wf() && self.external.enc_wf()
    }

    fn serialize(&self, out: &mut Vec<u8>) {
        self.module.serialize(out);
        self.field.serialize(out);
        self.external.serialize(out);
        proof {
            assert(out@ =~= old(out)@ + self.enc());
        }
    }
}

impl Deserialize for ImportEntry {
    #[verifier::rlimit(50)]
    fn deserialize(reader: &mut Reader) -> (r: Result<Self, Error>) {
        let ghost r0 = *old(reader);
        proof {
            assert forall|v: Self, rest: Seq<u8>|
                v.enc_wf() && r0.remaining() == #[trigger] (v.enc() + rest) implies r0.remaining()
                == v.module.enc() + ((v.field.enc() + (v.external.enc() + rest))) by {
                assert(v.enc() + rest =~= v.module.enc() + (v.field.enc() + (v.external.enc()
                    + rest)));
            }
        }
        let module = match String::deserialize(reader) {
            Ok(s) => s,
            Err(e) => { return Err(e); },
        };
        let ghost r1 = *reader;
        proof {
            assert forall|v: Self, rest: Seq<u8>|
                v.enc_wf() && r0.remaining() == #[trigger] (v.enc() + rest) implies module@
                == v.module@ && r1.remaining() == v.field.enc() + (v.external.enc() + rest) by {
                lemma_reader_advance(r0, r1, v.module.enc(), v.field.enc() + (v.external.enc()
                    + rest));
            }
        }
        let field = match String::deserialize(reader) {
            Ok(s) => s,
            Err(e) => { return Err(e); },
        };
        let ghost r2 = *reader;
        proof {
            assert forall|v: Self, rest: Seq<u8>|
                v.enc_wf() && r0.remaining() == #[trigger] (v.enc() + rest) implies field@
                == v.field@ && r2.remaining() == v.external.enc() + rest by {
                assert(r1.remaining() == v.field.enc() + (v.external.enc() + rest));
                lemma_reader_advance(r1, r2, v.field.enc(), v.external.enc() + rest);
            }
        }
        let external = match External::deserialize(reader) {
            Ok(x) => x,
            Err(e) => {
                proof {
                    assert forall|v: Self, rest: Seq<u8>|
                        v.enc_wf() && r0.remaining() == #[trigger] (v.enc() + rest)
                            implies false by {
                        assert(r2.remaining() == v.external.enc() + rest);
                    }
                }
                return Err(e);
            },
        };
        let result = ImportEntry { module, field, external };
        proof {
            assert forall|v: Self, rest: Seq<u8>|
                v.enc_wf() && r0.remaining() == #[trigger] (v.enc() + rest) implies result.deq(&v)
                && reader.position() == r0.position() + v.enc().len() by {
                assert(r2.remaining() == v.external.enc() + rest);
            }
        }
        Ok(result)
    }
}

} // verus!
