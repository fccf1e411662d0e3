//! Value types, block types, and function signatures.

use vstd::prelude::*;
use crate::elements::error::Error;
use crate::elements::io::{Reader, lemma_reader_advance};
use crate::elements::primitives::{
    VarInt7, VarUint1, VarUint7, counted_list_wf, deserialize_counted_list, enc_counted_list,
    lemma_vi7_code_bytes, list_deq, serialize_counted_list,
};
use crate::elements::traits::{Deserialize, Serialize};

verus! {

/// Type of a numeric value on the operand stack.
#[derive(Copy, Clone, Debug, PartialEq, Eq, Structural)]
pub enum ValueType {
    /// 32-bit signed integer.
    I32,
    /// 64-bit signed integer.
    I64,
    /// 32-bit float.
    F32,
    /// 64-bit float.
    F64,
}

impl Serialize for ValueType {
    open spec fn enc(&self) -> Seq<u8> {
        match self {
            ValueType::I32 => seq![0x7fu8],
            ValueType::I64 => seq![0x7eu8],
            ValueType::F32 => seq![0x7du8],
            ValueType::F64 => seq![0x7cu8],
        }
    }

    open spec fn enc_wf(&self) -> bool {
        true
    }

    fn serialize(&self, out: &mut Vec<u8>) {
        let b: u8 = match self {
            ValueType::I32 => 0x7f,
            ValueType::I64 => 0x7e,
            ValueType::F32 => 0x7d,
            ValueType::F64 => 0x7c,
        };
        out.push(b);
        proof {
            assert(out@ =~= old(out)@ + self.enc());
        }
    }
}

impl Deserialize for ValueType {
    fn deserialize(reader: &mut Reader) -> (r: Result<Self, Error>) {
        let b = match VarInt7::deserialize(reader) {
            Ok(b) => b,
            Err(e) => { return Err(e); },
        };
        let r: Result<Self, Error> = match b.0 {
            -0x01 => Ok(ValueType::I32),
            -0x02 => Ok(ValueType::I64),
            -0x03 => Ok(ValueType::F32),
            -0x04 => Ok(ValueType::F64),
            code => Err(Error::UnknownValueType(code)),
        };
        proof {
            assert forall|v: Self, rest: Seq<u8>|
                v.enc_wf() && old(reader).remaining() == #[trigger] (v.enc() + rest)
                    implies r is Ok && r->Ok_0.deq(&v) && reader.position() == old(
                reader,
            ).position() + v.enc().len() by {
                assert(old(reader).remaining()[0] == v.enc()[0]);
                lemma_vi7_code_bytes();
            }
        }
        r
    }
}

/// The declared result shape of a structured control region.
#[derive(Copy, Clone, Debug, PartialEq, Eq, Structural)]
pub enum BlockType {
    /// The region leaves no value behind.
    NoResult,
    /// The region leaves one value of the given type behind.
    Value(ValueType),
}

impl Serialize for BlockType {
    open spec fn enc(&self) -> Seq<u8> {
        match self {
            BlockType::NoResult => seq![0x40u8],
            BlockType::Value(vt) => vt.enc(),
        }
    }

    open spec fn enc_wf(&self) -> bool {
        true
    }

    fn serialize(&self, out: &mut Vec<u8>) {
        match self {
            BlockType::NoResult => {
                out.push(0x40);
                proof {
                    assert(out@ =~= old(out)@ + self.enc());
                }
            },
            BlockType::Value(vt) => {
                vt.serialize(out);
            },
        }
    }
}

impl Deserialize for BlockType {
    fn deserialize(reader: &mut Reader) -> (r: Result<Self, Error>) {
        let b = match VarInt7::deserialize(reader) {
            Ok(b) => b,
            Err(e) => { return Err(e); },
        };
        let r: Result<Self, Error> = match b.0 {
            -0x40 => Ok(BlockType::NoResult),
            -0x01 => Ok(BlockType::Value(ValueType::I32)),
            -0x02 => Ok(BlockType::Value(ValueType::I64)),
            -0x03 => Ok(BlockType::Value(ValueType::F32)),
            -0x04 => Ok(BlockType::Value(ValueType::F64)),
            code => Err(Error::UnknownBlockType(code)),
        };
        proof {
            assert forall|v: Self, rest: Seq<u8>|
                v.enc_wf() && old(reader).remaining() == #[trigger] (v.enc() + rest)
                    implies r is Ok && r->Ok_0.deq(&v) && reader.position() == old(
                reader,
            ).position() + v.enc().len() by {
                assert(old(reader).remaining()[0] == v.enc()[0]);
                lemma_vi7_code_bytes();
            }
        }
        r
    }
}

/// Encoding of an optional result type: a presence flag, then the type.
pub open spec fn enc_return_type(o: Option<ValueType>) -> Seq<u8> {
    match o {
        Option::None => seq![0u8],
        Option::Some(vt) => seq![1u8] + vt.enc(),
    }
}

/// Signature of a function: parameter types and at most one result type.
///
/// The leading form byte of the wire format is preserved verbatim so that
/// decoding and re-encoding a module reproduces it.
#[derive(Clone, Debug, PartialEq, Eq)]
pub struct FunctionType {
    /// The form byte this signature carries on the wire.
    pub form: u8,
    /// The parameter types, in order.
    pub params: Vec<ValueType>,
    /// The result type, if any.
    pub return_type: Option<ValueType>,
}

impl FunctionType {
    /// New function signature with the standard function form.
    pub fn new(params: Vec<ValueType>, return_type: Option<ValueType>) -> (r: Self)
        ensures
            r.params@ == params@,
            r.return_type == return_type,
            r.form == 0x60u8,
    {
        FunctionType { form: 0x60, params, return_type }
    }

    /// The parameter types, in order.
    pub fn params(&self) -> (r: &Vec<ValueType>)
        ensures
            r@ == self.params@,
    {
        &self.params
    }

    /// The result type, if the function returns a value.
    pub fn return_type(&self) -> (r: Option<ValueType>)
        ensures
            r == self.return_type,
    {
        self.return_type
    }

    /// The parameter types as a sequence, for contracts.
    pub open spec fn spec_params(&self) -> Seq<ValueType> {
        self.params@
    }

    /// The result type, for contracts.
    pub open spec fn spec_return_type(&self) -> Option<ValueType> {
        self.return_type
    }
}

impl Serialize for FunctionType {
    open spec fn enc(&self) -> Seq<u8> {
        seq![self.form] + enc_counted_list(self.params@) + enc_return_type(self.return_type)
    }

    open spec fn deq(&self, other: &Self) -> bool {
        self.form == other.form && self.params@ == other.params@ && self.return_type
            == other.return_type
    }

    open spec fn enc_wf(&self) -> bool {
        self.params@.len() <= u32::MAX
    }

    fn serialize(&self, out: &mut Vec<u8>) {
        out.push(self.form);
        serialize_counted_list(&self.params, out);
        match self.return_type {
            Option::None => {
                out.push(0);
            },
            Option::Some(vt) => {
                out.push(1);
                vt.serialize(out);
            },
        }
        proof {
            assert(out@ =~= old(out)@ + self.enc());
        }
    }
}

impl Deserialize for FunctionType {
    fn deserialize(reader: &mut Reader) -> (r: Result<Self, Error>) {
        let ghost r0 = *old(reader);
        let form = match VarUint7::deserialize(reader) {
            Ok(b) => b.0,
            Err(e) => {
                proof {
                    assert forall|v: Self, rest: Seq<u8>|
                        v.enc_wf() && r0.remaining() == #[trigger] (v.enc() + rest)
                            implies false by {
                        assert(r0.remaining().len() > 0);
                    }
                }
                return Err(e);
            },
        };
        let ghost r1 = *reader;
        proof {
            assert forall|v: Self, rest: Seq<u8>|
                v.enc_wf() && r0.remaining() == #[trigger] (v.enc() + rest) implies form == v.form
                && r1.remaining() == enc_counted_list(v.params@) + (enc_return_type(v.return_type)
                + rest) by {
                assert(v.enc() + rest =~= seq![v.form] + (enc_counted_list(v.params@) + (
                enc_return_type(v.return_type) + rest)));
                assert(r0.remaining()[0] == v.form);
                lemma_reader_advance(
                    r0,
                    r1,
                    seq![v.form],
                    enc_counted_list(v.params@) + (enc_return_type(v.return_type) + rest),
                );
            }
        }
        let params = match deserialize_counted_list::<ValueType>(reader) {
            Ok(p) => p,
            Err(e) => {
                proof {
                    assert forall|v: Self, rest: Seq<u8>|
                        v.enc_wf() && r0.remaining() == #[trigger] (v.enc() + rest)
                            implies false by {
                        assert(counted_list_wf(v.params@));
                        assert(r1.remaining() == enc_counted_list(v.params@) + (enc_return_type(
                            v.return_type,
                        ) + rest));
                    }
                }
                return Err(e);
            },
        };
        let ghost r2 = *reader;
        proof {
            assert forall|v: Self, rest: Seq<u8>|
                v.enc_wf() && r0.remaining() == #[trigger] (v.enc() + rest) implies list_deq(
                params@,
                v.params@,
            ) && r2.remaining() == enc_return_type(v.return_type) + rest by {
                assert(counted_list_wf(v.params@));
                assert(r1.remaining() == enc_counted_list(v.params@) + (enc_return_type(
                    v.return_type,
                ) + rest));
                lemma_reader_advance(
                    r1,
                    r2,
                    enc_counted_list(v.params@),
                    enc_return_type(v.return_type) + rest,
                );
            }
        }
        let has_return = match VarUint1::deserialize(reader) {
            Ok(b) => b.0,
            Err(e) => {
                proof {
                    assert forall|v: Self, rest: Seq<u8>|
                        v.enc_wf() && r0.remaining() == #[trigger] (v.enc() + rest)
                            implies false by {
                        assert(r2.remaining() == enc_return_type(v.return_type) + rest);
                        assert(VarUint1(v.return_type is Some).enc() + (match v.return_type {
                            Option::None => rest,
                            Option::Some(vt) => vt.enc() + rest,
                        }) =~= enc_return_type(v.return_type) + rest);
                    }
                }
                return Err(e);
            },
        };
        let ghost r3 = *reader;
        proof {
            assert forall|v: Self, rest: Seq<u8>|
                v.enc_wf() && r0.remaining() == #[trigger] (v.enc() + rest) implies has_return == (
            v.return_type is Some) && r3.remaining() == (match v.return_type {
                Option::None => rest,
                Option::Some(vt) => vt.enc() + rest,
            }) by {
                assert(r2.remaining() == enc_return_type(v.return_type) + rest);
                let tail: Seq<u8> = match v.return_type {
                    Option::None => rest,
                    Option::Some(vt) => vt.enc() + rest,
                };
                assert(VarUint1(v.return_type is Some).enc() + tail =~= enc_return_type(
                    v.return_type,
                ) + rest);
                lemma_reader_advance(r2, r3, VarUint1(v.return_type is Some).enc(), tail);
            }
        }
        let return_type: Option<ValueType> = if has_return {
            match ValueType::deserialize(reader) {
                Ok(vt) => Some(vt),
                Err(e) => {
                    proof {
                        assert forall|v: Self, rest: Seq<u8>|
                            v.enc_wf() && r0.remaining() == #[trigger] (v.enc() + rest)
                                implies false by {
                            assert(v.return_type is Some);
                        }
                    }
                    return Err(e);
                },
            }
        } else {
            None
        };
        let result = FunctionType { form, params, return_type };
        proof {
            assert forall|v: Self, rest: Seq<u8>|
                v.enc_wf() && r0.remaining() == #[trigger] (v.enc() + rest) implies result.deq(&v)
                && reader.position() == r0.position() + v.enc().len() by {
                assert(params@ =~= v.params@);
                if v.return_type is Some {
                    let vt = v.return_type->0;
                    assert(r3.remaining() == vt.enc() + rest);
                    assert(return_type == Some(vt));
                    assert(reader.position() == r3.position() + vt.enc().len());
                } else {
                    assert(reader.position() == r3.position());
                }
                assert(v.enc().len() == 1 + enc_counted_list(v.params@).len() + enc_return_type(
                    v.return_type,
                ).len());
            }
        }
        Ok(result)
    }
}

/// A type declaration in the type section.
#[derive(Clone, Debug, PartialEq, Eq)]
pub enum Type {
    /// A function signature; the only type the MVP format knows.
    Function(FunctionType),
}

impl Serialize for Type {
    open spec fn enc(&self) -> Seq<u8> {
        match self {
            Type::Function(ft) => ft.enc(),
        }
    }

    open spec fn deq(&self, other: &Self) -> bool {
        match (self, other) {
            (Type::Function(a), Type::Function(b)) => a.deq(b),
        }
    }

    open spec fn enc_wf(&self) -> bool {
        match self {
            Type::Function(ft) => ft.enc_wf(),
        }
    }

    fn serialize(&self, out: &mut Vec<u8>) {
        match self {
            Type::Function(ft) => ft.serialize(out),
        }
    }
}

impl Deserialize for Type {
    fn deserialize(reader: &mut Reader) -> (r: Result<Self, Error>) {
        let ft = match FunctionType::deserialize(reader) {
            Ok(ft) => ft,
            Err(e) => { return Err(e); },
        };
        proof {
            assert forall|v: Self, rest: Seq<u8>|
                v.enc_wf() && old(reader).remaining() == #[trigger] (v.enc() + rest)
                    implies Type::Function(ft).deq(&v) && reader.position() == old(
                reader,
            ).position() + v.enc().len() by {
                let inner = v->Function_0;
                assert(old(reader).remaining() == inner.enc() + rest);
            }
        }
        Ok(Type::Function(ft))
    }
}

} // verus!
