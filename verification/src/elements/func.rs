//! Function declarations and bodies.

use vstd::prelude::*;
use crate::elements::error::Error;
use crate::elements::io::{Reader, lemma_reader_advance, write_bytes};
use crate::elements::ops::{Opcodes, read_nested_ops, nested_wf};
use crate::elements::primitives::{
    counted_list_wf, deserialize_counted_list, enc_counted_list, enc_leb_u32,
    lemma_enc_leb_u32_len, lemma_leb_u32_round_trip, list_deq, read_leb_u32,
    serialize_counted_list, write_leb_u32,
};
use crate::elements::traits::{Deserialize, Serialize, enc_list, list_wf};
use crate::elements::types::ValueType;

verus! {

/// A run-length group of local variables of one type.
#[derive(Copy, Clone, Debug, PartialEq, Eq, Structural)]
pub struct Local {
    /// How many locals the group declares.
    pub count: u32,
    /// The type of every local in the group.
    pub value_type: ValueType,
}

impl Local {
    /// New group of `count` locals of type `value_type`.
    pub fn new(count: u32, value_type: ValueType) -> (r: Self)
        ensures
            r.count == count,
            r.value_type == value_type,
    {
        Local { count, value_type }
    }

    /// How many locals the group declares.
    pub fn count(&self) -> (r: u32)
        ensures
            r == self.count,
    {
        self.count
    }

    /// The type of every local in the group.
    pub fn value_type(&self) -> (r: ValueType)
        ensures
            r == self.value_type,
    {
        self.value_type
    }

    /// The group's size, for contracts.
    pub open spec fn spec_count(&self) -> u32 {
        self.count
    }

    /// The group's type, for contracts.
    pub open spec fn spec_value_type(&self) -> ValueType {
        self.value_type
    }
}

impl Serialize for Local {
    open spec fn enc(&self) -> Seq<u8> {
        enc_leb_u32(self.count) + self.value_type.enc()
    }

    open spec fn enc_wf(&self) -> bool {
        true
    }

    fn serialize(&self, out: &mut Vec<u8>) {
        write_leb_u32(out, self.count);
        self.value_type.serialize(out);
        proof {
            assert(out@ =~= old(out)@ + self.enc());
        }
    }
}

impl Deserialize for Local {
    fn deserialize(reader: &mut Reader) -> (r: Result<Self, Error>) {
        let ghost r0 = *old(reader);
        proof {
            assert forall|v: Self, rest: Seq<u8>|
                v.enc_wf() && r0.remaining() == #[trigger] (v.enc() + rest) implies r0.remaining()
                == enc_leb_u32(v.count) + (v.value_type.enc() + rest) by {
                assert(v.enc() + rest =~= enc_leb_u32(v.count) + (v.value_type.enc() + rest));
            }
        }
        let count = match read_leb_u32(reader, 5) {
            Ok(c) => c,
            Err(e) => {
                proof {
                    assert forall|v: Self, rest: Seq<u8>|
                        v.enc_wf() && r0.remaining() == #[trigger] (v.enc() + rest)
                            implies false by {
                        lemma_enc_leb_u32_len(v.count);
                        lemma_leb_u32_round_trip(v.count, v.value_type.enc() + rest, 5);
                    }
                }
                return Err(e);
            },
        };
        let ghost r1 = *reader;
        proof {
            assert forall|v: Self, rest: Seq<u8>|
                v.enc_wf() && r0.remaining() == #[trigger] (v.enc() + rest) implies count
                == v.count && r1.remaining() == v.value_type.enc() + rest by {
                lemma_enc_leb_u32_len(v.count);
                lemma_leb_u32_round_trip(v.count, v.value_type.enc() + rest, 5);
                lemma_reader_advance(r0, r1, enc_leb_u32(v.count), v.value_type.enc() + rest);
            }
        }
        let value_type = match ValueType::deserialize(reader) {
            Ok(t) => t,
            Err(e) => {
                proof {
                    assert forall|v: Self, rest: Seq<u8>|
                        v.enc_wf() && r0.remaining() == #[trigger] (v.enc() + rest)
                            implies false by {
                        assert(r1.remaining() == v.value_type.enc() + rest);
                    }
                }
                return Err(e);
            },
        };
        let result = Local { count, value_type };
        proof {
            assert forall|v: Self, rest: Seq<u8>|
                v.enc_wf() && r0.remaining() == #[trigger] (v.enc() + rest) implies result == v
                && reader.position() == r0.position() + v.enc().len() by {
                assert(r1.remaining() == v.value_type.enc() + rest);
            }
        }
        Ok(result)
    }
}

/// A function declaration: a reference into the type section.
#[derive(Copy, Clone, Debug, PartialEq, Eq, Structural)]
pub struct Func(pub u32);

impl Func {
    /// New function declaration with the given type reference.
    pub fn new(type_ref: u32) -> (r: Self)
        ensures
            r.0 == type_ref,
    {
        Func(type_ref)
    }

    /// The index of the function's signature in the type section.
    pub fn type_ref(&self) -> (r: u32)
        ensures
            r == self.0,
    {
        self.0
    }

    /// The type reference, for contracts.
    pub open spec fn spec_type_ref(&self) -> u32 {
        self.0
    }
}

/// A function body: its local declarations and its instructions, framed by
/// the body's byte length.
#[derive(Clone, Debug, PartialEq)]
pub struct FuncBody {
    /// The local declarations.
    pub locals: Vec<Local>,
    /// The instructions of the body.
    pub opcodes: Opcodes,
}

/// The bytes inside a function body's length frame.
pub open spec fn enc_func_body_inner(locals: Seq<Local>, code: Seq<crate::elements::ops::Opcode>)
    -> Seq<u8> {
    enc_counted_list(locals) + enc_list(code)
}

impl FuncBody {
    /// New function body.
    pub fn new(locals: Vec<Local>, opcodes: Opcodes) -> (r: Self)
        ensures
            r.locals == locals,
            r.opcodes == opcodes,
    {
        FuncBody { locals, opcodes }
    }

    /// The local declarations.
    pub fn locals(&self) -> (r: &Vec<Local>)
        ensures
            r == &self.locals,
    {
        &self.locals
    }

    /// The instructions of the body.
    pub fn code(&self) -> (r: &Opcodes)
        ensures
            r == &self.opcodes,
    {
        &self.opcodes
    }

    /// The local declarations, for contracts.
    pub open spec fn spec_locals(&self) -> Seq<Local> {
        self.locals@
    }

    /// The instructions, for contracts.
    pub open spec fn spec_code(&self) -> Seq<crate::elements::ops::Opcode> {
        self.opcodes.0@
    }
}

impl Serialize for FuncBody {
    open spec fn enc(&self) -> Seq<u8> {
        enc_leb_u32(enc_func_body_inner(self.locals@, self.opcodes.0@).len() as u32)
            + enc_func_body_inner(self.locals@, self.opcodes.0@)
    }

    open spec fn deq(&self, other: &Self) -> bool {
        list_deq(self.locals@, other.locals@) && self.opcodes.deq(&other.opcodes)
    }

    open spec fn enc_wf(&self) -> bool {
        &&& counted_list_wf(self.locals@)
        &&& self.opcodes.enc_wf()
        &&& enc_func_body_inner(self.locals@, self.opcodes.0@).len() <= u32::MAX
    }

    fn serialize(&self, out: &mut Vec<u8>) {
        let mut inner: Vec<u8> = Vec::new();
        serialize_counted_list(&self.locals, &mut inner);
        crate::elements::ops::serialize_op_seq(&self.opcodes.0, &mut inner);
        proof {
            assert(inner@ =~= enc_func_body_inner(self.locals@, self.opcodes.0@));
        }
        write_leb_u32(out, inner.len() as u32);
        write_bytes(out, inner.as_slice());
        proof {
            assert(out@ =~= old(out)@ + self.enc());
        }
    }
}

impl Deserialize for FuncBody {
    fn deserialize(reader: &mut Reader) -> (r: Result<Self, Error>) {
        let ghost r0 = *old(reader);
        proof {
            assert forall|v: Self, rest: Seq<u8>|
                v.enc_wf() && r0.remaining() == #[trigger] (v.enc() + rest) implies r0.remaining()
                == enc_leb_u32(enc_func_body_inner(v.locals@, v.opcodes.0@).len() as u32) + (
            enc_counted_list(v.locals@) + (enc_list(v.opcodes.0@) + rest)) by {
                assert(v.enc() + rest =~= enc_leb_u32(enc_func_body_inner(
                    v.locals@,
                    v.opcodes.0@,
                ).len() as u32) + (enc_counted_list(v.locals@) + (enc_list(v.opcodes.0@) + rest)));
            }
        }
        let _body_size = match read_leb_u32(reader, 5) {
            Ok(n) => n,
            Err(e) => {
                proof {
                    assert forall|v: Self, rest: Seq<u8>|
                        v.enc_wf() && r0.remaining() == #[trigger] (v.enc() + rest)
                            implies false by {
                        let n0 = enc_func_body_inner(v.locals@, v.opcodes.0@).len() as u32;
                        lemma_enc_leb_u32_len(n0);
                        lemma_leb_u32_round_trip(n0, enc_counted_list(v.locals@) + (enc_list(
                            v.opcodes.0@,
                        ) + rest), 5);
                    }
                }
                return Err(e);
            },
        };
        let ghost r1 = *reader;
        proof {
            assert forall|v: Self, rest: Seq<u8>|
                v.enc_wf() && r0.remaining() == #[trigger] (v.enc() + rest) implies r1.remaining()
                == enc_counted_list(v.locals@) + (enc_list(v.opcodes.0@) + rest) by {
                let n0 = enc_func_body_inner(v.locals@, v.opcodes.0@).len() as u32;
                lemma_enc_leb_u32_len(n0);
                lemma_leb_u32_round_trip(n0, enc_counted_list(v.locals@) + (enc_list(v.opcodes.0@)
                    + rest), 5);
                lemma_reader_advance(r0, r1, enc_leb_u32(n0), enc_counted_list(v.locals@) + (
                enc_list(v.opcodes.0@) + rest));
            }
        }
        let locals = match deserialize_counted_list::<Local>(reader) {
            Ok(l) => l,
            Err(e) => {
                proof {
                    assert forall|v: Self, rest: Seq<u8>|
                        v.enc_wf() && r0.remaining() == #[trigger] (v.enc() + rest)
                            implies false by {
                        assert(r1.remaining() == enc_counted_list(v.locals@) + (enc_list(
                            v.opcodes.0@,
                        ) + rest));
                    }
                }
                return Err(e);
            },
        };
        let ghost r2 = *reader;
        proof {
            assert forall|v: Self, rest: Seq<u8>|
                v.enc_wf() && r0.remaining() == #[trigger] (v.enc() + rest) implies list_deq(
                locals@,
                v.locals@,
            ) && r2.remaining() == enc_list(v.opcodes.0@) + rest by {
                assert(r1.remaining() == enc_counted_list(v.locals@) + (enc_list(v.opcodes.0@)
                    + rest));
                lemma_reader_advance(r1, r2, enc_counted_list(v.locals@), enc_list(v.opcodes.0@)
                    + rest);
            }
        }
        let code = match read_nested_ops(reader) {
            Ok(c) => c,
            Err(e) => {
                proof {
                    assert forall|v: Self, rest: Seq<u8>|
                        v.enc_wf() && r0.remaining() == #[trigger] (v.enc() + rest)
                            implies false by {
                        assert(r2.remaining() == enc_list(v.opcodes.0@) + rest);
                    }
                }
                return Err(e);
            },
        };
        let result = FuncBody { locals, opcodes: Opcodes(code) };
        proof {
            assert forall|v: Self, rest: Seq<u8>|
                v.enc_wf() && r0.remaining() == #[trigger] (v.enc() + rest) implies result.deq(&v)
                && reader.position() == r0.position() + v.enc().len() by {
                assert(r2.remaining() == enc_list(v.opcodes.0@) + rest);
            }
        }
        Ok(result)
    }
}


impl Serialize for Func {
    open spec fn enc(&self) -> Seq<u8> {
        enc_leb_u32(self.0)
    }

    open spec fn enc_wf(&self) -> bool {
        true
    }

    fn serialize(&self, out: &mut Vec<u8>) {
        write_leb_u32(out, self.0);
    }
}

impl Deserialize for Func {
    fn deserialize(reader: &mut Reader) -> (r: Result<Self, Error>) {
        let i = match read_leb_u32(reader, 5) {
            Ok(i) => i,
            Err(e) => {
                proof {
                    assert forall|v: Self, rest: Seq<u8>|
                        v.enc_wf() && old(reader).remaining() == #[trigger] (v.enc() + rest)
                            implies false by {
                        lemma_enc_leb_u32_len(v.0);
                        lemma_leb_u32_round_trip(v.0, rest, 5);
                    }
                }
                return Err(e);
            },
        };
        proof {
            assert forall|v: Self, rest: Seq<u8>|
                v.enc_wf() && old(reader).remaining() == #[trigger] (v.enc() + rest)
                    implies Func(i) == v && reader.position() == old(reader).position()
                + v.enc().len() by {
                lemma_enc_leb_u32_len(v.0);
                lemma_leb_u32_round_trip(v.0, rest, 5);
            }
        }
        Ok(Func(i))
    }
}

} // verus!
