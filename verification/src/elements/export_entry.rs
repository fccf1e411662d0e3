//! Export entries.

use vstd::prelude::*;
use crate::elements::error::Error;
use crate::elements::io::{Reader, lemma_reader_advance};
use crate::elements::primitives::{
    VarUint7, enc_leb_u32, lemma_enc_leb_u32_len, lemma_leb_u32_round_trip, read_leb_u32,
    write_leb_u32,
};
use crate::elements::traits::{Deserialize, Serialize};

verus! {

/// What an export names inside the module, by index.
#[derive(Copy, Clone, Debug, PartialEq, Eq, Structural)]
pub enum Internal {
    /// A function in the function index space.
    Function(u32),
    /// A table.
    Table(u32),
    /// A linear memory.
    Memory(u32),
    /// A global variable.
    Global(u32),
}

/// The index an internal reference carries.
pub open spec fn internal_index(v: Internal) -> u32 {
    match v {
        Internal::Function(i) => i,
        Internal::Table(i) => i,
        Internal::Memory(i) => i,
        Internal::Global(i) => i,
    }
}

/// The kind byte of an internal reference.
pub open spec fn internal_kind(v: Internal) -> u8 {
    match v {
        Internal::Function(_) => 0,
        Internal::Table(_) => 1,
        Internal::Memory(_) => 2,
        Internal::Global(_) => 3,
    }
}

impl Serialize for Internal {
    open spec fn enc(&self) -> Seq<u8> {
        seq![internal_kind(*self)] + enc_leb_u32(internal_index(*self))
    }

    open spec fn enc_wf(&self) -> bool {
        true
    }

    fn serialize(&self, out: &mut Vec<u8>) {
        let (kind, index): (u8, u32) = match self {
            Internal::Function(i) => (0, *i),
            Internal::Table(i) => (1, *i),
            Internal::Memory(i) => (2, *i),
            Internal::Global(i) => (3, *i),
        };
        out.push(kind);
        write_leb_u32(out, index);
        proof {
            assert(out@ =~= old(out)@ + self.enc());
        }
    }
}

impl Deserialize for Internal {
    fn deserialize(reader: &mut Reader) -> (r: Result<Self, Error>) {
        let ghost r0 = *old(reader);
        let kind = match VarUint7::deserialize(reader) {
            Ok(k) => k.0,
            Err(e) => {
                proof {
                    assert forall|v: Self, rest: Seq<u8>|
                        v.enc_wf() && r0.remaining() == #[trigger] (v.enc() + rest)
                            implies false by {
                        assert(r0.remaining().len() > 0);
                    }
                }
                return Err(e);
            },
        };
        let ghost r1 = *reader;
        proof {
            assert forall|v: Self, rest: Seq<u8>|
                v.enc_wf() && r0.remaining() == #[trigger] (v.enc() + rest) implies kind
                == internal_kind(v) && r1.remaining() == enc_leb_u32(internal_index(v)) + rest by {
                assert(v.enc() + rest =~= seq![internal_kind(v)] + (enc_leb_u32(internal_index(v))
                    + rest));
                assert(r0.remaining()[0] == internal_kind(v));
                lemma_reader_advance(r0, r1, seq![internal_kind(v)], enc_leb_u32(internal_index(v))
                    + rest);
            }
        }
        if kind > 3 {
            proof {
                assert forall|v: Self, rest: Seq<u8>|
                    v.enc_wf() && r0.remaining() == #[trigger] (v.enc() + rest) implies false by {
                }
            }
            return Err(Error::UnknownInternalKind(kind));
        }
        let index = match read_leb_u32(reader, 5) {
            Ok(i) => i,
            Err(e) => {
                proof {
                    assert forall|v: Self, rest: Seq<u8>|
                        v.enc_wf() && r0.remaining() == #[trigger] (v.enc() + rest)
                            implies false by {
                        lemma_enc_leb_u32_len(internal_index(v));
                        lemma_leb_u32_round_trip(internal_index(v), rest, 5);
                    }
                }
                return Err(e);
            },
        };
        let r: Result<Self, Error> = if kind == 0 {
            Ok(Internal::Function(index))
        } else if kind == 1 {
            Ok(Internal::Table(index))
        } else if kind == 2 {
            Ok(Internal::Memory(index))
        } else {
            Ok(Internal::Global(index))
        };
        proof {
            assert forall|v: Self, rest: Seq<u8>|
                v.enc_wf() && r0.remaining() == #[trigger] (v.enc() + rest) implies r is Ok
                && r->Ok_0.deq(&v) && reader.position() == r0.position() + v.enc().len() by {
                lemma_enc_leb_u32_len(internal_index(v));
                lemma_leb_u32_round_trip(internal_index(v), rest, 5);
            }
        }
        r
    }
}

/// One export: a field name and the internal item it names.
#[derive(Clone, Debug, PartialEq)]
pub struct ExportEntry {
    /// The name the item is exported under.
    pub field: String,
    /// The item exported.
    pub internal: Internal,
}

impl ExportEntry {
    /// New export entry.
    pub fn new(field: String, internal: Internal) -> (r: Self)
        ensures
            r.field == field,
            r.internal == internal,
    {
        ExportEntry { field, internal }
    }

    /// The name the item is exported under.
    pub fn field(&self) -> (r: &str)
        ensures
            r@ == self.field@,
    {
        self.field.as_str()
    }

    /// The item exported.
    pub fn internal(&self) -> (r: &Internal)
        ensures
            r == &self.internal,
    {
        &self.internal
    }
}

impl Serialize for ExportEntry {
    open spec fn enc(&self) -> Seq<u8> {
        self.field.enc() + self.internal.enc()
    }

    open spec fn deq(&self, other: &Self) -> bool {
        self.field@ == other.field@ && self.internal == other.internal
    }

    open spec fn enc_wf(&self) -> bool {
        self.field.enc_wf()
    }

    fn serialize(&self, out: &mut Vec<u8>) {
        self.field.serialize(out);
        self.internal.serialize(out);
        proof {
            assert(out@ =~= old(out)@ + self.enc());
        }
    }
}

impl Deserialize for ExportEntry {
    fn deserialize(reader: &mut Reader) -> (r: Result<Self, Error>) {
        let ghost r0 = *old(reader);
        proof {
            assert forall|v: Self, rest: Seq<u8>|
                v.enc_wf() && r0.remaining() == #[trigger] (v.enc() + rest) implies r0.remaining()
                == v.field.enc() + (v.internal.enc() + rest) by {
                assert(v.enc() + rest =~= v.field.enc() + (v.internal.enc() + rest));
            }
        }
        let field = match String::deserialize(reader) {
            Ok(s) => s,
            Err(e) => { return Err(e); },
        };
        let ghost r1 = *reader;
        proof {
            assert forall|v: Self, rest: Seq<u8>|
                v.enc_wf() && r0.remaining() == #[trigger] (v.enc() + rest) implies field@
                == v.field@ && r1.remaining() == v.internal.enc() + rest by {
                lemma_reader_advance(r0, r1, v.field.enc(), v.internal.enc() + rest);
            }
        }
        let internal = match Internal::deserialize(reader) {
            Ok(x) => x,
            Err(e) => {
                proof {
                    assert forall|v: Self, rest: Seq<u8>|
                        v.enc_wf() && r0.remaining() == #[trigger] (v.enc() + rest)
                            implies false by {
                        assert(r1.remaining() == v.internal.enc() + rest);
                    }
                }
                return Err(e);
            },
        };
        let result = ExportEntry { field, internal };
        proof {
            assert forall|v: Self, rest: Seq<u8>|
                v.enc_wf() && r0.remaining() == #[trigger] (v.enc() + rest) implies result.deq(&v)
                && reader.position() == r0.position() + v.enc().len() by {
                assert(r1.remaining() == v.internal.enc() + rest);
            }
        }
        Ok(result)
    }
}

} // verus!
