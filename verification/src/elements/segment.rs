//! Element and data segments.

use vstd::prelude::*;
use crate::elements::error::Error;
use crate::elements::io::{Reader, lemma_reader_advance, write_bytes};
use crate::elements::ops::InitExpr;
use crate::elements::primitives::{
    enc_leb_u32, enc_u32_counted, lemma_enc_leb_u32_len, lemma_leb_u32_round_trip, read_leb_u32,
    read_u32_counted, write_leb_u32, write_u32_counted,
};
use crate::elements::traits::{Deserialize, Serialize};

verus! {

/// One table initializer: a table index, an offset expression, and the
/// function indices to place there.
#[derive(Clone, Debug, PartialEq)]
pub struct ElementSegment {
    /// The index of the table initialized.
    pub index: u32,
    /// The offset expression.
    pub offset: InitExpr,
    /// The function indices placed into the table.
    pub members: Vec<u32>,
}

impl ElementSegment {
    /// New element segment.
    pub fn new(index: u32, offset: InitExpr, members: Vec<u32>) -> (r: Self)
        ensures
            r.index == index,
            r.offset == offset,
            r.members == members,
    {
        ElementSegment { index, offset, members }
    }

    /// The index of the table initialized.
    pub fn index(&self) -> (r: u32)
        ensures
            r == self.index,
    {
        self.index
    }

    /// The expression that computes the starting offset.
    pub fn offset(&self) -> (r: &InitExpr)
        ensures
            r == &self.offset,
    {
        &self.offset
    }

    /// The function indices placed into the table.
    pub fn members(&self) -> (r: &Vec<u32>)
        ensures
            r == &self.members,
    {
        &self.members
    }

    /// The table index, for contracts.
    pub open spec fn spec_index_field(&self) -> u32 {
        self.index
    }

    /// The offset expression, for contracts.
    pub open spec fn spec_offset(&self) -> InitExpr {
        self.offset
    }

    /// The member indices, for contracts.
    pub open spec fn spec_members(&self) -> Seq<u32> {
        self.members@
    }
}

impl Serialize for ElementSegment {
    open spec fn enc(&self) -> Seq<u8> {
        enc_leb_u32(self.index) + self.offset.enc() + enc_u32_counted(self.members@)
    }

    open spec fn deq(&self, other: &Self) -> bool {
        self.index == other.index && self.offset.deq(&other.offset) && self.members@
            == other.members@
    }

    open spec fn enc_wf(&self) -> bool {
        self.offset.enc_wf() && self.members@.len() <= u32::MAX
    }

    fn serialize(&self, out: &mut Vec<u8>) {
        write_leb_u32(out, self.index);
        self.offset.serialize(out);
        write_u32_counted(out, &self.members);
        proof {
            assert(out@ =~= old(out)@ + self.enc());
        }
    }
}

impl Deserialize for ElementSegment {
    fn deserialize(reader: &mut Reader) -> (r: Result<Self, Error>) {
        let ghost r0 = *old(reader);
        proof {
            assert forall|v: Self, rest: Seq<u8>|
                v.enc_wf() && r0.remaining() == #[trigger] (v.enc() + rest) implies r0.remaining()
                == enc_leb_u32(v.index) + (v.offset.enc() + (enc_u32_counted(v.members@)
                + rest)) by {
                assert(v.enc() + rest =~= enc_leb_u32(v.index) + (v.offset.enc() + (
                enc_u32_counted(v.members@) + rest)));
            }
        }
        let index = match read_leb_u32(reader, 5) {
            Ok(i) => i,
            Err(e) => {
                proof {
                    assert forall|v: Self, rest: Seq<u8>|
                        v.enc_wf() && r0.remaining() == #[trigger] (v.enc() + rest)
                            implies false by {
                        lemma_enc_leb_u32_len(v.index);
                        lemma_leb_u32_round_trip(v.index, v.offset.enc() + (enc_u32_counted(
                            v.members@,
                        ) + rest), 5);
                    }
                }
                return Err(e);
            },
        };
        let ghost r1 = *reader;
        proof {
            assert forall|v: Self, rest: Seq<u8>|
                v.enc_wf() && r0.remaining() == #[trigger] (v.enc() + rest) implies index
                == v.index && r1.remaining() == v.offset.enc() + (enc_u32_counted(v.members@)
                + rest) by {
                lemma_enc_leb_u32_len(v.index);
                lemma_leb_u32_round_trip(v.index, v.offset.enc() + (enc_u32_counted(v.members@)
                    + rest), 5);
                lemma_reader_advance(r0, r1, enc_leb_u32(v.index), v.offset.enc() + (
                enc_u32_counted(v.members@) + rest));
            }
        }
        let offset = match InitExpr::deserialize(reader) {
            Ok(x) => x,
            Err(e) => {
                proof {
                    assert forall|v: Self, rest: Seq<u8>|
                        v.enc_wf() && r0.remaining() == #[trigger] (v.enc() + rest)
                            implies false by {
                        assert(r1.remaining() == v.offset.enc() + (enc_u32_counted(v.members@)
                            + rest));
                    }
                }
                return Err(e);
            },
        };
        let ghost r2 = *reader;
        proof {
            assert forall|v: Self, rest: Seq<u8>|
                v.enc_wf() && r0.remaining() == #[trigger] (v.enc() + rest) implies offset.deq(
                &v.offset,
            ) && r2.remaining() == enc_u32_counted(v.members@) + rest by {
                assert(r1.remaining() == v.offset.enc() + (enc_u32_counted(v.members@) + rest));
                lemma_reader_advance(r1, r2, v.offset.enc(), enc_u32_counted(v.members@) + rest);
            }
        }
        let members = match read_u32_counted(reader) {
            Ok(m) => m,
            Err(e) => {
                proof {
                    assert forall|v: Self, rest: Seq<u8>|
                        v.enc_wf() && r0.remaining() == #[trigger] (v.enc() + rest)
                            implies false by {
                        assert(r2.remaining() == enc_u32_counted(v.members@) + rest);
                    }
                }
                return Err(e);
            },
        };
        let result = ElementSegment { index, offset, members };
        proof {
            assert forall|v: Self, rest: Seq<u8>|
                v.enc_wf() && r0.remaining() == #[trigger] (v.enc() + rest) implies result.deq(&v)
                && reader.position() == r0.position() + v.enc().len() by {
                assert(r2.remaining() == enc_u32_counted(v.members@) + rest);
            }
        }
        Ok(result)
    }
}

/// One memory initializer: a memory index, an offset expression, and the
/// bytes to place there.
#[derive(Clone, Debug, PartialEq)]
pub struct DataSegment {
    /// The index of the memory initialized.
    pub index: u32,
    /// The offset expression.
    pub offset: InitExpr,
    /// The bytes written into the memory.
    pub value: Vec<u8>,
}

impl DataSegment {
    /// New data segment.
    pub fn new(index: u32, offset: InitExpr, value: Vec<u8>) -> (r: Self)
        ensures
            r.index == index,
            r.offset == offset,
            r.value == value,
    {
        DataSegment { index, offset, value }
    }

    /// The index of the memory initialized.
    pub fn index(&self) -> (r: u32)
        ensures
            r == self.index,
    {
        self.index
    }

    /// The expression that computes the starting offset.
    pub fn offset(&self) -> (r: &InitExpr)
        ensures
            r == &self.offset,
    {
        &self.offset
    }

    /// The bytes written into the memory.
    pub fn value(&self) -> (r: &Vec<u8>)
        ensures
            r == &self.value,
    {
        &self.value
    }

    /// The memory index, for contracts.
    pub open spec fn spec_index_field(&self) -> u32 {
        self.index
    }

    /// The offset expression, for contracts.
    pub open spec fn spec_offset(&self) -> InitExpr {
        self.offset
    }

    /// The payload bytes, for contracts.
    pub open spec fn spec_value(&self) -> Seq<u8> {
        self.value@
    }
}

impl Serialize for DataSegment {
    open spec fn enc(&self) -> Seq<u8> {
        enc_leb_u32(self.index) + self.offset.enc() + enc_leb_u32(self.value@.len() as u32)
            + self.value@
    }

    open spec fn deq(&self, other: &Self) -> bool {
        self.index == other.index && self.offset.deq(&other.offset) && self.value@ == other.value@
    }

    open spec fn enc_wf(&self) -> bool {
        self.offset.enc_wf() && self.value@.len() <= u32::MAX
    }

    fn serialize(&self, out: &mut Vec<u8>) {
        write_leb_u32(out, self.index);
        self.offset.serialize(out);
        write_leb_u32(out, self.value.len() as u32);
        write_bytes(out, self.value.as_slice());
        proof {
            assert(out@ =~= old(out)@ + self.enc());
        }
    }
}

impl Deserialize for DataSegment {
    fn deserialize(reader: &mut Reader) -> (r: Result<Self, Error>) {
        let ghost r0 = *old(reader);
        proof {
            assert forall|v: Self, rest: Seq<u8>|
                v.enc_wf() && r0.remaining() == #[trigger] (v.enc() + rest) implies r0.remaining()
                == enc_leb_u32(v.index) + (v.offset.enc() + (enc_leb_u32(v.value@.len() as u32) + (
            v.value@ + rest))) by {
                assert(v.enc() + rest =~= enc_leb_u32(v.index) + (v.offset.enc() + (enc_leb_u32(
                    v.value@.len() as u32,
                ) + (v.value@ + rest))));
            }
        }
        let index = match read_leb_u32(reader, 5) {
            Ok(i) => i,
            Err(e) => {
                proof {
                    assert forall|v: Self, rest: Seq<u8>|
                        v.enc_wf() && r0.remaining() == #[trigger] (v.enc() + rest)
                            implies false by {
                        lemma_enc_leb_u32_len(v.index);
                        lemma_leb_u32_round_trip(v.index, v.offset.enc() + (enc_leb_u32(
                            v.value@.len() as u32,
                        ) + (v.value@ + rest)), 5);
                    }
                }
                return Err(e);
            },
        };
        let ghost r1 = *reader;
        proof {
            assert forall|v: Self, rest: Seq<u8>|
                v.enc_wf() && r0.remaining() == #[trigger] (v.enc() + rest) implies index
                == v.index && r1.remaining() == v.offset.enc() + (enc_leb_u32(
                v.value@.len() as u32,
            ) + (v.value@ + rest)) by {
                lemma_enc_leb_u32_len(v.index);
                lemma_leb_u32_round_trip(v.index, v.offset.enc() + (enc_leb_u32(
                    v.value@.len() as u32,
                ) + (v.value@ + rest)), 5);
                lemma_reader_advance(r0, r1, enc_leb_u32(v.index), v.offset.enc() + (enc_leb_u32(
                    v.value@.len() as u32,
                ) + (v.value@ + rest)));
            }
        }
        let offset = match InitExpr::deserialize(reader) {
            Ok(x) => x,
            Err(e) => {
                proof {
                    assert forall|v: Self, rest: Seq<u8>|
                        v.enc_wf() && r0.remaining() == #[trigger] (v.enc() + rest)
                            implies false by {
                        assert(r1.remaining() == v.offset.enc() + (enc_leb_u32(
                            v.value@.len() as u32,
                        ) + (v.value@ + rest)));
                    }
                }
                return Err(e);
            },
        };
        let ghost r2 = *reader;
        proof {
            assert forall|v: Self, rest: Seq<u8>|
                v.enc_wf() && r0.remaining() == #[trigger] (v.enc() + rest) implies offset.deq(
                &v.offset,
            ) && r2.remaining() == enc_leb_u32(v.value@.len() as u32) + (v.value@ + rest) by {
                assert(r1.remaining() == v.offset.enc() + (enc_leb_u32(v.value@.len() as u32) + (
                v.value@ + rest)));
                lemma_reader_advance(r1, r2, v.offset.enc(), enc_leb_u32(v.value@.len() as u32) + (
                v.value@ + rest));
            }
        }
        let len = match read_leb_u32(reader, 5) {
            Ok(n) => n,
            Err(e) => {
                proof {
                    assert forall|v: Self, rest: Seq<u8>|
                        v.enc_wf() && r0.remaining() == #[trigger] (v.enc() + rest)
                            implies false by {
                        assert(r2.remaining() == enc_leb_u32(v.value@.len() as u32) + (v.value@
                            + rest));
                        lemma_enc_leb_u32_len(v.value@.len() as u32);
                        lemma_leb_u32_round_trip(v.value@.len() as u32, v.value@ + rest, 5);
                    }
                }
                return Err(e);
            },
        };
        let ghost r3 = *reader;
        proof {
            assert forall|v: Self, rest: Seq<u8>|
                v.enc_wf() && r0.remaining() == #[trigger] (v.enc() + rest) implies len
                == v.value@.len() && r3.remaining() == v.value@ + rest by {
                assert(r2.remaining() == enc_leb_u32(v.value@.len() as u32) + (v.value@ + rest));
                lemma_enc_leb_u32_len(v.value@.len() as u32);
                lemma_leb_u32_round_trip(v.value@.len() as u32, v.value@ + rest, 5);
                lemma_reader_advance(r2, r3, enc_leb_u32(v.value@.len() as u32), v.value@ + rest);
            }
        }
        let value = match reader.read_bytes(len as usize) {
            Ok(bs) => bs,
            Err(e) => {
                proof {
                    assert forall|v: Self, rest: Seq<u8>|
                        v.enc_wf() && r0.remaining() == #[trigger] (v.enc() + rest)
                            implies false by {
                        assert(r3.remaining() == v.value@ + rest);
                    }
                }
                return Err(e);
            },
        };
        let result = DataSegment { index, offset, value };
        proof {
            assert forall|v: Self, rest: Seq<u8>|
                v.enc_wf() && r0.remaining() == #[trigger] (v.enc() + rest) implies result.deq(&v)
                && reader.position() == r0.position() + v.enc().len() by {
                assert(r3.remaining() == v.value@ + rest);
                assert(value@ =~= v.value@);
            }
        }
        Ok(result)
    }
}

} // verus!
