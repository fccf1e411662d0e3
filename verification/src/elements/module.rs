//! The module: a header followed by its sections, and the top-level
//! decode and encode entry points.

use vstd::prelude::*;
use crate::elements::error::Error;
use crate::elements::io::{Reader, lemma_reader_advance, lemma_remaining_len, write_bytes};
use crate::elements::section::Section;
use crate::elements::traits::{
    Deserialize, Serialize, enc_list, lemma_enc_list_first, list_wf,
};
use crate::elements::primitives::list_deq;

verus! {

/// The four magic bytes that open every module.
pub open spec fn magic_bytes() -> Seq<u8> {
    seq![0x00u8, 0x61u8, 0x73u8, 0x6du8]
}

/// The encoding of a whole module: magic, version, then each section.
pub open spec fn enc_module(sections: Seq<Section>, version: u32) -> Seq<u8> {
    magic_bytes() + vstd::bytes::spec_u32_to_le_bytes(version) + enc_list(sections)
}

/// A WebAssembly module: its version and its ordered sections.
#[derive(Clone, Debug)]
pub struct Module {
    /// The version from the module header.
    pub version: u32,
    /// The sections, in the order they appear.
    pub sections: Vec<Section>,
}

impl Module {
    /// New module of the supported version with the given sections.
    pub fn new(sections: Vec<Section>) -> (r: Self)
        ensures
            r.version == 1,
            r.sections == sections,
    {
        Module { version: 1, sections }
    }

    /// The module's sections, in order.
    pub fn sections(&self) -> (r: &Vec<Section>)
        ensures
            r == &self.sections,
    {
        &self.sections
    }

    /// The module's sections, mutable.
    pub fn sections_mut(&mut self) -> (r: &mut Vec<Section>)
        ensures
            *r == old(self).sections,
            final(self).sections == *final(r),
            final(self).version == old(self).version,
    {
        &mut self.sections
    }

    /// The version from the module header.
    pub fn version(&self) -> (r: u32)
        ensures
            r == self.version,
    {
        self.version
    }

    /// Module values the encoder can represent exactly.
    pub open spec fn enc_wf(&self) -> bool {
        self.version == 1 && list_wf(self.sections@)
    }

    /// The canonical encoding of this module.
    pub open spec fn enc(&self) -> Seq<u8> {
        enc_module(self.sections@, self.version)
    }

    /// Representation equality: the same sections, section for section.
    pub open spec fn deq(&self, other: &Self) -> bool {
        self.version == other.version && list_deq(self.sections@, other.sections@)
    }

    /// Encode this module to bytes.
    ///
    /// Together with [`Module::deserialize`] this states the codec's
    /// round-trip law: decoding the bytes this returns yields this module
    /// back, section for section.
    pub fn serialize(&self) -> (r: Vec<u8>)
        requires
            self.enc_wf(),
        ensures
            r@ == self.enc(),
    {
        let mut out: Vec<u8> = Vec::new();
        out.push(0x00);
        out.push(0x61);
        out.push(0x73);
        out.push(0x6d);
        let version_bytes = vstd::bytes::u32_to_le_bytes(self.version);
        write_bytes(&mut out, version_bytes.as_slice());
        proof {
            assert(out@ =~= magic_bytes() + vstd::bytes::spec_u32_to_le_bytes(self.version));
        }
        crate::elements::section::serialize_sections(&self.sections, &mut out);
        proof {
            assert(out@ =~= self.enc());
        }
        out
    }

    /// Decode a module from the whole remaining input.
    ///
    /// On any input that is exactly the encoding of a well-formed module,
    /// the result is that module.
    pub fn deserialize(reader: &mut Reader) -> (r: Result<Self, Error>)
        requires
            old(reader).wf(),
        ensures
            final(reader).wf(),
            final(reader).input() == old(reader).input(),
            forall|m: Module|
                m.enc_wf() && old(reader).remaining() == #[trigger] m.enc() ==> r is Ok
                    && r->Ok_0.deq(&m),
    {
        let ghost r0 = *old(reader);
        let magic = match reader.read_bytes(4) {
            Ok(bs) => bs,
            Err(_) => {
                proof {
                    assert forall|m: Module|
                        m.enc_wf() && r0.remaining() == #[trigger] m.enc() implies false by {
                        vstd::bytes::lemma_auto_spec_u32_to_from_le_bytes();
                    }
                }
                return Err(Error::UnexpectedEof);
            },
        };
        if !(magic[0] == 0x00 && magic[1] == 0x61 && magic[2] == 0x73 && magic[3] == 0x6d) {
            proof {
                assert forall|m: Module|
                    m.enc_wf() && r0.remaining() == #[trigger] m.enc() implies false by {
                    assert(r0.remaining()[0] == 0x00 && r0.remaining()[1] == 0x61
                        && r0.remaining()[2] == 0x73 && r0.remaining()[3] == 0x6d);
                    assert(magic@[0] == r0.remaining()[0] && magic@[1] == r0.remaining()[1]
                        && magic@[2] == r0.remaining()[2] && magic@[3] == r0.remaining()[3]);
                }
            }
            return Err(Error::InvalidMagic);
        }
        let ghost r1 = *reader;
        proof {
            assert forall|m: Module|
                m.enc_wf() && r0.remaining() == #[trigger] m.enc() implies r1.remaining()
                == vstd::bytes::spec_u32_to_le_bytes(1u32) + enc_list(m.sections@) by {
                vstd::bytes::lemma_auto_spec_u32_to_from_le_bytes();
                assert(m.enc() =~= magic_bytes() + (vstd::bytes::spec_u32_to_le_bytes(1u32)
                    + enc_list(m.sections@)));
                lemma_reader_advance(r0, r1, magic_bytes(), vstd::bytes::spec_u32_to_le_bytes(
                    1u32,
                ) + enc_list(m.sections@));
            }
        }
        let version_bytes = match reader.read_bytes(4) {
            Ok(bs) => bs,
            Err(_) => {
                proof {
                    assert forall|m: Module|
                        m.enc_wf() && r0.remaining() == #[trigger] m.enc() implies false by {
                        vstd::bytes::lemma_auto_spec_u32_to_from_le_bytes();
                    }
                }
                return Err(Error::UnexpectedEof);
            },
        };
        let version = vstd::bytes::u32_from_le_bytes(version_bytes.as_slice());
        let ghost r2 = *reader;
        proof {
            assert forall|m: Module|
                m.enc_wf() && r0.remaining() == #[trigger] m.enc() implies version == 1
                && r2.remaining() == enc_list(m.sections@) by {
                vstd::bytes::lemma_auto_spec_u32_to_from_le_bytes();
                assert(version_bytes@ =~= vstd::bytes::spec_u32_to_le_bytes(1u32));
                lemma_reader_advance(r1, r2, vstd::bytes::spec_u32_to_le_bytes(1u32), enc_list(
                    m.sections@,
                ));
            }
        }
        if version != 1 {
            proof {
                assert forall|m: Module|
                    m.enc_wf() && r0.remaining() == #[trigger] m.enc() implies false by {
                }
            }
            return Err(Error::UnsupportedVersion(version));
        }
        let mut sections: Vec<Section> = Vec::new();
        proof {
            assert forall|m: Module|
                m.enc_wf() && r0.remaining() == #[trigger] m.enc() implies reader.remaining()
                == enc_list(m.sections@.skip(0int)) by {
                assert(m.sections@.skip(0int) =~= m.sections@);
            }
        }
        while !reader.is_at_end()
            invariant
                r0 == *old(reader),
                r0.wf(),
                reader.wf(),
                reader.input() == r0.input(),
                reader.position() >= r0.position(),
                forall|m: Module|
                    m.enc_wf() && r0.remaining() == #[trigger] m.enc() ==> {
                        &&& sections@.len() <= m.sections@.len()
                        &&& list_deq(sections@, m.sections@.take(sections@.len() as int))
                        &&& reader.remaining() == enc_list(
                            m.sections@.skip(sections@.len() as int),
                        )
                    },
            decreases reader.input().len() - reader.position(),
        {
            let ghost pre = *reader;
            let ghost k = sections@.len() as int;
            proof {
                assert forall|m: Module|
                    m.enc_wf() && r0.remaining() == #[trigger] m.enc() implies k
                    < m.sections@.len() by {
                    if k >= m.sections@.len() {
                        assert(m.sections@.skip(k) =~= Seq::<Section>::empty());
                        assert(enc_list(m.sections@.skip(k)) =~= Seq::<u8>::empty());
                        lemma_remaining_len(pre);
                    }
                }
            }
            let section = match Section::deserialize(reader) {
                Ok(s) => s,
                Err(e) => {
                    proof {
                        assert forall|m: Module|
                            m.enc_wf() && r0.remaining() == #[trigger] m.enc() implies false by {
                            lemma_enc_list_first(m.sections@, k);
                            assert(pre.remaining() == m.sections@[k].enc() + enc_list(
                                m.sections@.skip(k + 1),
                            ));
                        }
                    }
                    return Err(e);
                },
            };
            sections.push(section);
            proof {
                assert forall|m: Module|
                    m.enc_wf() && r0.remaining() == #[trigger] m.enc() implies {
                    &&& sections@.len() <= m.sections@.len()
                    &&& list_deq(sections@, m.sections@.take(k + 1))
                    &&& reader.remaining() == enc_list(m.sections@.skip(k + 1))
                } by {
                    lemma_enc_list_first(m.sections@, k);
                    assert(pre.remaining() == m.sections@[k].enc() + enc_list(m.sections@.skip(
                        k + 1,
                    )));
                    lemma_reader_advance(pre, *reader, m.sections@[k].enc(), enc_list(
                        m.sections@.skip(k + 1),
                    ));
                    assert(sections@.drop_last() =~= sections@.take(k));
                    assert forall|j: int| 0 <= j < k + 1 implies (#[trigger] sections@[j]).deq(
                        &m.sections@.take(k + 1)[j],
                    ) by {
                        if j < k {
                            assert(sections@[j] == sections@.take(k)[j]);
                        }
                    }
                }
            }
        }
        let result = Module { version, sections };
        proof {
            assert forall|m: Module|
                m.enc_wf() && r0.remaining() == #[trigger] m.enc() implies result.deq(&m) by {
                let k = sections@.len() as int;
                if k < m.sections@.len() {
                    lemma_enc_list_first(m.sections@, k);
                    assert(enc_list(m.sections@.skip(k)) == m.sections@[k].enc() + enc_list(
                        m.sections@.skip(k + 1),
                    ));
                    assert(m.sections@[k].enc() =~= seq![m.sections@[k].enc()[0]]
                        + m.sections@[k].enc().skip(1));
                    assert(enc_list(m.sections@.skip(k)).len() > 0);
                    lemma_remaining_len(*reader);
                }
                assert(m.sections@.take(k) =~= m.sections@);
            }
        }
        Ok(result)
    }
}

/// Decode one element from a byte buffer.
pub fn deserialize_buffer<T: Deserialize>(buf: &Vec<u8>) -> (r: Result<T, Error>)
    ensures
        forall|v: T, rest: Seq<u8>|
            v.enc_wf() && buf@ == #[trigger] (v.enc() + rest) ==> r is Ok && r->Ok_0.deq(&v),
{
    let mut reader = Reader::new(buf.as_slice());
    proof {
        assert(reader.remaining() =~= buf@);
    }
    T::deserialize(&mut reader)
}

/// Decode a whole module from a byte buffer.
pub fn deserialize_module(buf: &Vec<u8>) -> (r: Result<Module, Error>)
    ensures
        forall|m: Module|
            m.enc_wf() && buf@ == #[trigger] m.enc() ==> r is Ok && r->Ok_0.deq(&m),
{
    let mut reader = Reader::new(buf.as_slice());
    proof {
        assert(reader.remaining() =~= buf@);
    }
    Module::deserialize(&mut reader)
}

/// Encode one element to a fresh byte buffer.
pub fn serialize<T: Serialize>(v: &T) -> (r: Vec<u8>)
    requires
        v.enc_wf(),
    ensures
        r@ == v.enc(),
{
    let mut out: Vec<u8> = Vec::new();
    v.serialize(&mut out);
    out
}

} // verus!
