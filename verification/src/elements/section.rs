//! The sections of a module and their binary framing.
//!
//! Every section is its one-byte id followed by a length-prefixed payload;
//! most payloads are counted lists of entries.

use vstd::prelude::*;
use crate::elements::error::Error;
use crate::elements::export_entry::ExportEntry;
use crate::elements::func::{Func, FuncBody};
use crate::elements::global_entry::GlobalEntry;
use crate::elements::import_entry::{ImportEntry, External, MemoryType, TableType};
use crate::elements::io::{Reader, lemma_reader_advance, write_bytes};
use crate::elements::primitives::{
    VarUint7, chunks_encode_u32s, concat_chunks, counted_list_wf, deserialize_counted_list,
    dec_leb_u32, enc_counted_list, enc_leb_u32, enc_leb_u32_seq, enc_u32_counted,
    lemma_dec_leb_u32_extend,
    lemma_enc_leb_u32_len, lemma_leb_u32_round_trip, leb_u32_delimits, leb_u32_encodes, list_deq,
    read_leb_u32, read_u32_counted, write_leb_u32,
};
use crate::elements::segment::{DataSegment, ElementSegment};
use crate::elements::traits::{Deserialize, Serialize, enc_list};
use crate::elements::types::Type;

verus! {

/// A length-prefixed payload.
pub open spec fn enc_framed(payload: Seq<u8>) -> Seq<u8> {
    enc_leb_u32(payload.len() as u32) + payload
}

/// Write a payload behind its byte-length prefix.
pub fn write_framed(out: &mut Vec<u8>, payload: &Vec<u8>)
    requires
        payload@.len() <= u32::MAX,
    ensures
        final(out)@ == old(out)@ + enc_framed(payload@),
{
    write_leb_u32(out, payload.len() as u32);
    write_bytes(out, payload.as_slice());
    proof {
        assert(final(out)@ =~= old(out)@ + enc_framed(payload@));
    }
}

/// Serialize a counted list behind its byte-length prefix.
pub fn serialize_framed_counted_list<T: Serialize>(items: &Vec<T>, out: &mut Vec<u8>)
    requires
        counted_list_wf(items@),
        enc_counted_list(items@).len() <= u32::MAX,
    ensures
        final(out)@ == old(out)@ + enc_framed(enc_counted_list(items@)),
{
    let mut payload: Vec<u8> = Vec::new();
    crate::elements::primitives::serialize_counted_list(items, &mut payload);
    write_framed(out, &payload);
}

/// Deserialize a counted list framed by its (ignored) byte length: on any
/// encoded input — the length and count prefixes minimal or padded — the
/// result is the encoded sequence, element for element.
pub fn deserialize_framed_counted_list<T: Deserialize>(reader: &mut Reader) -> (r: Result<
    Vec<T>,
    Error,
>)
    requires
        old(reader).wf(),
    ensures
        final(reader).wf(),
        final(reader).input() == old(reader).input(),
        final(reader).position() >= old(reader).position(),
        r is Ok ==> final(reader).position() > old(reader).position(),
        forall|items: Seq<T>, rest: Seq<u8>|
            counted_list_wf(items) && enc_counted_list(items).len() <= u32::MAX && old(
                reader,
            ).remaining() == #[trigger] (enc_framed(enc_counted_list(items)) + rest) ==> r is Ok
                && list_deq(r->Ok_0@, items) && final(reader).position() == old(reader).position()
                + enc_framed(enc_counted_list(items)).len(),
        forall|items: Seq<T>, len_pre: Seq<u8>, cnt_pre: Seq<u8>, rest: Seq<u8>|
            #![trigger len_pre + (cnt_pre + (enc_list(items) + rest))]
            counted_list_wf(items) && leb_u32_delimits(len_pre) && leb_u32_encodes(
                cnt_pre,
                items.len() as u32,
            ) && old(reader).remaining() == len_pre + (cnt_pre + (enc_list(items) + rest))
                ==> r is Ok && list_deq(r->Ok_0@, items) && final(reader).position() == old(
                reader,
            ).position() + len_pre.len() + cnt_pre.len() + enc_list(items).len(),
{
    let ghost r0 = *old(reader);
    let _section_length = match read_leb_u32(reader, 5) {
        Ok(n) => n,
        Err(e) => {
            proof {
                assert forall|items: Seq<T>, rest: Seq<u8>|
                    counted_list_wf(items) && enc_counted_list(items).len() <= u32::MAX
                        && r0.remaining() == #[trigger] (enc_framed(enc_counted_list(items))
                        + rest) implies false by {
                    let n0 = enc_counted_list(items).len() as u32;
                    lemma_enc_leb_u32_len(n0);
                    lemma_leb_u32_round_trip(n0, enc_counted_list(items) + rest, 5);
                    assert(enc_framed(enc_counted_list(items)) + rest =~= enc_leb_u32(n0) + (
                    enc_counted_list(items) + rest));
                }
                assert forall|items: Seq<T>, len_pre: Seq<u8>, cnt_pre: Seq<u8>, rest: Seq<u8>|
                    #![trigger len_pre + (cnt_pre + (enc_list(items) + rest))]
                    counted_list_wf(items) && leb_u32_delimits(len_pre) && leb_u32_encodes(
                        cnt_pre,
                        items.len() as u32,
                    ) && r0.remaining() == len_pre + (cnt_pre + (enc_list(items) + rest))
                        implies false by {
                    let p = dec_leb_u32(len_pre, 5)->Ok_0;
                    lemma_dec_leb_u32_extend(
                        len_pre,
                        cnt_pre + (enc_list(items) + rest),
                        p.0,
                        p.1,
                        5,
                    );
                }
            }
            return Err(e);
        },
    };
    let ghost r1 = *reader;
    proof {
        assert forall|items: Seq<T>, rest: Seq<u8>|
            counted_list_wf(items) && enc_counted_list(items).len() <= u32::MAX && r0.remaining()
                == #[trigger] (enc_framed(enc_counted_list(items)) + rest) implies r1.remaining()
            == enc_counted_list(items) + rest by {
            let n0 = enc_counted_list(items).len() as u32;
            lemma_enc_leb_u32_len(n0);
            lemma_leb_u32_round_trip(n0, enc_counted_list(items) + rest, 5);
            assert(enc_framed(enc_counted_list(items)) + rest =~= enc_leb_u32(n0) + (
            enc_counted_list(items) + rest));
            lemma_reader_advance(r0, r1, enc_leb_u32(n0), enc_counted_list(items) + rest);
        }
        assert forall|items: Seq<T>, len_pre: Seq<u8>, cnt_pre: Seq<u8>, rest: Seq<u8>|
            #![trigger len_pre + (cnt_pre + (enc_list(items) + rest))]
            counted_list_wf(items) && leb_u32_delimits(len_pre) && leb_u32_encodes(
                cnt_pre,
                items.len() as u32,
            ) && r0.remaining() == len_pre + (cnt_pre + (enc_list(items) + rest))
            implies r1.remaining() == cnt_pre + (enc_list(items) + rest) by {
            let p = dec_leb_u32(len_pre, 5)->Ok_0;
            lemma_dec_leb_u32_extend(len_pre, cnt_pre + (enc_list(items) + rest), p.0, p.1, 5);
            lemma_reader_advance(r0, r1, len_pre, cnt_pre + (enc_list(items) + rest));
        }
    }
    let entries = match deserialize_counted_list::<T>(reader) {
        Ok(v) => v,
        Err(e) => {
            proof {
                assert forall|items: Seq<T>, rest: Seq<u8>|
                    counted_list_wf(items) && enc_counted_list(items).len() <= u32::MAX
                        && r0.remaining() == #[trigger] (enc_framed(enc_counted_list(items))
                        + rest) implies false by {
                    assert(r1.remaining() == enc_counted_list(items) + rest);
                }
                assert forall|items: Seq<T>, len_pre: Seq<u8>, cnt_pre: Seq<u8>, rest: Seq<u8>|
                    #![trigger len_pre + (cnt_pre + (enc_list(items) + rest))]
                    counted_list_wf(items) && leb_u32_delimits(len_pre) && leb_u32_encodes(
                        cnt_pre,
                        items.len() as u32,
                    ) && r0.remaining() == len_pre + (cnt_pre + (enc_list(items) + rest))
                        implies false by {
                    assert(r1.remaining() == cnt_pre + (enc_list(items) + rest));
                }
            }
            return Err(e);
        },
    };
    proof {
        assert forall|items: Seq<T>, rest: Seq<u8>|
            counted_list_wf(items) && enc_counted_list(items).len() <= u32::MAX && r0.remaining()
                == #[trigger] (enc_framed(enc_counted_list(items)) + rest) implies list_deq(
            entries@,
            items,
        ) && reader.position() == r0.position() + enc_framed(enc_counted_list(items)).len() by {
            assert(r1.remaining() == enc_counted_list(items) + rest);
        }
        assert forall|items: Seq<T>, len_pre: Seq<u8>, cnt_pre: Seq<u8>, rest: Seq<u8>|
            #![trigger len_pre + (cnt_pre + (enc_list(items) + rest))]
            counted_list_wf(items) && leb_u32_delimits(len_pre) && leb_u32_encodes(
                cnt_pre,
                items.len() as u32,
            ) && r0.remaining() == len_pre + (cnt_pre + (enc_list(items) + rest)) implies list_deq(
            entries@,
            items,
        ) && reader.position() == r0.position() + len_pre.len() + cnt_pre.len() + enc_list(
            items,
        ).len() by {
            assert(r1.remaining() == cnt_pre + (enc_list(items) + rest));
        }
    }
    Ok(entries)
}

/// Section holding the module's type declarations.
#[derive(Clone, Debug, Default)]
pub struct TypeSection(pub Vec<Type>);

impl TypeSection {
    /// New section with the given entries.
    pub fn with_types(entries: Vec<Type>) -> (r: Self)
        ensures
            r.0 == entries,
    {
        TypeSection(entries)
    }

    /// The section's entries.
    pub fn types(&self) -> (r: &Vec<Type>)
        ensures
            r == &self.0,
    {
        &self.0
    }

    /// The section's entries, mutable.
    pub fn types_mut(&mut self) -> (r: &mut Vec<Type>)
        ensures
            *r == old(self).0,
            final(self).0 == *final(r),
    {
        &mut self.0
    }
}

impl Serialize for TypeSection {
    open spec fn enc(&self) -> Seq<u8> {
        enc_framed(enc_counted_list(self.0@))
    }

    open spec fn deq(&self, other: &Self) -> bool {
        list_deq(self.0@, other.0@)
    }

    open spec fn enc_wf(&self) -> bool {
        counted_list_wf(self.0@) && enc_counted_list(self.0@).len() <= u32::MAX
    }

    fn serialize(&self, out: &mut Vec<u8>) {
        serialize_framed_counted_list(&self.0, out);
    }
}

impl Deserialize for TypeSection {
    fn deserialize(reader: &mut Reader) -> (r: Result<Self, Error>)
        ensures
            forall|items: Seq<Type>, len_pre: Seq<u8>, cnt_pre: Seq<u8>, rest: Seq<u8>|
                #![trigger len_pre + (cnt_pre + (enc_list(items) + rest))]
                counted_list_wf(items) && leb_u32_delimits(len_pre) && leb_u32_encodes(
                    cnt_pre,
                    items.len() as u32,
                ) && old(reader).remaining() == len_pre + (cnt_pre + (enc_list(items) + rest))
                    ==> r is Ok && list_deq(r->Ok_0.0@, items),
    {
        match deserialize_framed_counted_list::<Type>(reader) {
            Ok(entries) => Ok(TypeSection(entries)),
            Err(e) => Err(e),
        }
    }
}


/// Section holding the module's import entries.
#[derive(Clone, Debug, Default)]
pub struct ImportSection(pub Vec<ImportEntry>);

impl ImportSection {
    /// New section with the given entries.
    pub fn with_entries(entries: Vec<ImportEntry>) -> (r: Self)
        ensures
            r.0 == entries,
    {
        ImportSection(entries)
    }

    /// The section's entries.
    pub fn entries(&self) -> (r: &Vec<ImportEntry>)
        ensures
            r == &self.0,
    {
        &self.0
    }

    /// The section's entries, mutable.
    pub fn entries_mut(&mut self) -> (r: &mut Vec<ImportEntry>)
        ensures
            *r == old(self).0,
            final(self).0 == *final(r),
    {
        &mut self.0
    }
}

impl Serialize for ImportSection {
    open spec fn enc(&self) -> Seq<u8> {
        enc_framed(enc_counted_list(self.0@))
    }

    open spec fn deq(&self, other: &Self) -> bool {
        list_deq(self.0@, other.0@)
    }

    open spec fn enc_wf(&self) -> bool {
        counted_list_wf(self.0@) && enc_counted_list(self.0@).len() <= u32::MAX
    }

    fn serialize(&self, out: &mut Vec<u8>) {
        serialize_framed_counted_list(&self.0, out);
    }
}

impl Deserialize for ImportSection {
    fn deserialize(reader: &mut Reader) -> (r: Result<Self, Error>)
        ensures
            forall|items: Seq<ImportEntry>, len_pre: Seq<u8>, cnt_pre: Seq<u8>, rest: Seq<u8>|
                #![trigger len_pre + (cnt_pre + (enc_list(items) + rest))]
                counted_list_wf(items) && leb_u32_delimits(len_pre) && leb_u32_encodes(
                    cnt_pre,
                    items.len() as u32,
                ) && old(reader).remaining() == len_pre + (cnt_pre + (enc_list(items) + rest))
                    ==> r is Ok && list_deq(r->Ok_0.0@, items),
    {
        match deserialize_framed_counted_list::<ImportEntry>(reader) {
            Ok(entries) => Ok(ImportSection(entries)),
            Err(e) => Err(e),
        }
    }
}


/// Section holding the module's function signature references.
#[derive(Clone, Debug, Default)]
pub struct FunctionSection(pub Vec<Func>);

impl FunctionSection {
    /// New section with the given entries.
    pub fn with_entries(entries: Vec<Func>) -> (r: Self)
        ensures
            r.0 == entries,
    {
        FunctionSection(entries)
    }

    /// The section's entries.
    pub fn entries(&self) -> (r: &Vec<Func>)
        ensures
            r == &self.0,
    {
        &self.0
    }

    /// The section's entries, mutable.
    pub fn entries_mut(&mut self) -> (r: &mut Vec<Func>)
        ensures
            *r == old(self).0,
            final(self).0 == *final(r),
    {
        &mut self.0
    }
}

impl Serialize for FunctionSection {
    open spec fn enc(&self) -> Seq<u8> {
        enc_framed(enc_counted_list(self.0@))
    }

    open spec fn deq(&self, other: &Self) -> bool {
        list_deq(self.0@, other.0@)
    }

    open spec fn enc_wf(&self) -> bool {
        counted_list_wf(self.0@) && enc_counted_list(self.0@).len() <= u32::MAX
    }

    fn serialize(&self, out: &mut Vec<u8>) {
        serialize_framed_counted_list(&self.0, out);
    }
}

/// The type references a sequence of function declarations carries.
pub open spec fn func_refs_of(funcs: Seq<Func>) -> Seq<u32> {
    Seq::new(funcs.len(), |k: int| funcs[k].0)
}

/// The encodings of function declarations are the encodings of their
/// type references.
proof fn lemma_enc_list_funcs(funcs: Seq<Func>)
    ensures
        crate::elements::traits::enc_list(funcs) == enc_leb_u32_seq(func_refs_of(funcs)),
    decreases funcs.len(),
{
    if funcs.len() > 0 {
        lemma_enc_list_funcs(funcs.drop_first());
        assert(func_refs_of(funcs).drop_first() =~= func_refs_of(funcs.drop_first()));
        assert(crate::elements::traits::enc_list(funcs) =~= enc_leb_u32_seq(func_refs_of(funcs)));
    } else {
        assert(crate::elements::traits::enc_list(funcs) =~= enc_leb_u32_seq(func_refs_of(funcs)));
    }
}

impl Deserialize for FunctionSection {
    fn deserialize(reader: &mut Reader) -> (r: Result<Self, Error>)
        ensures
            forall|refs: Seq<u32>, len_pre: Seq<u8>, cnt_pre: Seq<u8>, chunks: Seq<Seq<u8>>, rest: Seq<u8>|
                #![trigger chunks_encode_u32s(chunks, refs), len_pre + (cnt_pre + (concat_chunks(chunks) + rest))]
                refs.len() <= u32::MAX && leb_u32_delimits(len_pre) && leb_u32_encodes(
                    cnt_pre,
                    refs.len() as u32,
                ) && chunks_encode_u32s(chunks, refs) && old(reader).remaining() == len_pre + (
                cnt_pre + (concat_chunks(chunks) + rest)) ==> r is Ok && r->Ok_0.0@.len()
                    == refs.len() && (forall|k: int|
                    0 <= k < refs.len() ==> (#[trigger] r->Ok_0.0@[k]).0 == refs[k]),
    {
        let ghost r0 = *old(reader);
        let _section_length = match read_leb_u32(reader, 5) {
            Ok(n) => n,
            Err(e) => {
                proof {
                    assert forall|v: Self, rest: Seq<u8>|
                        v.enc_wf() && r0.remaining() == #[trigger] (v.enc() + rest)
                            implies false by {
                        let n0 = enc_counted_list(v.0@).len() as u32;
                        lemma_enc_leb_u32_len(n0);
                        lemma_leb_u32_round_trip(n0, enc_counted_list(v.0@) + rest, 5);
                        assert(v.enc() + rest =~= enc_leb_u32(n0) + (enc_counted_list(v.0@)
                            + rest));
                    }
                    assert forall|
                        refs: Seq<u32>,
                        len_pre: Seq<u8>,
                        cnt_pre: Seq<u8>,
                        chunks: Seq<Seq<u8>>,
                        rest: Seq<u8>,
                    |
                        #![trigger chunks_encode_u32s(chunks, refs), len_pre + (cnt_pre + (concat_chunks(chunks) + rest))]
                        refs.len() <= u32::MAX && leb_u32_delimits(len_pre) && leb_u32_encodes(
                            cnt_pre,
                            refs.len() as u32,
                        ) && chunks_encode_u32s(chunks, refs) && r0.remaining() == len_pre + (
                        cnt_pre + (concat_chunks(chunks) + rest)) implies false by {
                        let p = dec_leb_u32(len_pre, 5)->Ok_0;
                        lemma_dec_leb_u32_extend(
                            len_pre,
                            cnt_pre + (concat_chunks(chunks) + rest),
                            p.0,
                            p.1,
                            5,
                        );
                    }
                }
                return Err(e);
            },
        };
        let ghost r1 = *reader;
        proof {
            assert forall|v: Self, rest: Seq<u8>|
                v.enc_wf() && r0.remaining() == #[trigger] (v.enc() + rest) implies r1.remaining()
                == enc_leb_u32(v.0@.len() as u32) + (enc_leb_u32_seq(func_refs_of(v.0@))
                + rest) by {
                let n0 = enc_counted_list(v.0@).len() as u32;
                lemma_enc_leb_u32_len(n0);
                lemma_leb_u32_round_trip(n0, enc_counted_list(v.0@) + rest, 5);
                assert(v.enc() + rest =~= enc_leb_u32(n0) + (enc_counted_list(v.0@) + rest));
                lemma_reader_advance(r0, r1, enc_leb_u32(n0), enc_counted_list(v.0@) + rest);
                lemma_enc_list_funcs(v.0@);
                assert(enc_counted_list(v.0@) + rest =~= enc_leb_u32(v.0@.len() as u32) + (
                enc_leb_u32_seq(func_refs_of(v.0@)) + rest));
                lemma_reader_advance(r1, r1, Seq::empty(), r1.remaining());
            }
            assert forall|
                refs: Seq<u32>,
                len_pre: Seq<u8>,
                cnt_pre: Seq<u8>,
                chunks: Seq<Seq<u8>>,
                rest: Seq<u8>,
            |
                #![trigger chunks_encode_u32s(chunks, refs), len_pre + (cnt_pre + (concat_chunks(chunks) + rest))]
                refs.len() <= u32::MAX && leb_u32_delimits(len_pre) && leb_u32_encodes(
                    cnt_pre,
                    refs.len() as u32,
                ) && chunks_encode_u32s(chunks, refs) && r0.remaining() == len_pre + (cnt_pre + (
                concat_chunks(chunks) + rest)) implies r1.remaining() == cnt_pre + (concat_chunks(
                    chunks,
                ) + rest) by {
                let p = dec_leb_u32(len_pre, 5)->Ok_0;
                lemma_dec_leb_u32_extend(
                    len_pre,
                    cnt_pre + (concat_chunks(chunks) + rest),
                    p.0,
                    p.1,
                    5,
                );
                lemma_reader_advance(r0, r1, len_pre, cnt_pre + (concat_chunks(chunks) + rest));
            }
        }
        let refs = match read_u32_counted(reader) {
            Ok(rs) => rs,
            Err(e) => {
                proof {
                    assert forall|v: Self, rest: Seq<u8>|
                        v.enc_wf() && r0.remaining() == #[trigger] (v.enc() + rest)
                            implies false by {
                        assert(r1.remaining() == enc_leb_u32(v.0@.len() as u32) + (
                        enc_leb_u32_seq(func_refs_of(v.0@)) + rest));
                        assert(func_refs_of(v.0@).len() <= u32::MAX);
                        assert(r1.remaining() =~= enc_u32_counted(func_refs_of(v.0@)) + rest);
                    }
                }
                return Err(e);
            },
        };
        let n = refs.len();
        let mut entries: Vec<Func> = Vec::new();
        let mut i: usize = 0;
        while i < n
            invariant
                i <= n,
                n == refs@.len(),
                entries@.len() == i,
                forall|k: int| 0 <= k < i ==> (#[trigger] entries@[k]).0 == refs@[k],
            decreases n - i,
        {
            entries.push(Func::new(refs[i]));
            i = i + 1;
        }
        let result = FunctionSection(entries);
        proof {
            assert forall|v: Self, rest: Seq<u8>|
                v.enc_wf() && r0.remaining() == #[trigger] (v.enc() + rest) implies result.deq(&v)
                && reader.position() == r0.position() + v.enc().len() by {
                assert(r1.remaining() == enc_leb_u32(v.0@.len() as u32) + (enc_leb_u32_seq(
                    func_refs_of(v.0@),
                ) + rest));
                assert(r1.remaining() =~= enc_u32_counted(func_refs_of(v.0@)) + rest);
                assert(refs@ == func_refs_of(v.0@));
                assert forall|k: int| 0 <= k < v.0@.len() implies (#[trigger] entries@[k]).deq(
                    &v.0@[k],
                ) by {
                    assert(entries@[k].0 == refs@[k]);
                }
                lemma_enc_list_funcs(v.0@);
            }
        }
        Ok(result)
    }
}


/// Section holding the module's table definitions.
#[derive(Clone, Debug, Default)]
pub struct TableSection(pub Vec<TableType>);

impl TableSection {
    /// New section with the given entries.
    pub fn with_entries(entries: Vec<TableType>) -> (r: Self)
        ensures
            r.0 == entries,
    {
        TableSection(entries)
    }

    /// The section's entries.
    pub fn entries(&self) -> (r: &Vec<TableType>)
        ensures
            r == &self.0,
    {
        &self.0
    }

    /// The section's entries, mutable.
    pub fn entries_mut(&mut self) -> (r: &mut Vec<TableType>)
        ensures
            *r == old(self).0,
            final(self).0 == *final(r),
    {
        &mut self.0
    }
}

impl Serialize for TableSection {
    open spec fn enc(&self) -> Seq<u8> {
        enc_framed(enc_counted_list(self.0@))
    }

    open spec fn deq(&self, other: &Self) -> bool {
        list_deq(self.0@, other.0@)
    }

    open spec fn enc_wf(&self) -> bool {
        counted_list_wf(self.0@) && enc_counted_list(self.0@).len() <= u32::MAX
    }

    fn serialize(&self, out: &mut Vec<u8>) {
        serialize_framed_counted_list(&self.0, out);
    }
}

impl Deserialize for TableSection {
    fn deserialize(reader: &mut Reader) -> (r: Result<Self, Error>)
        ensures
            forall|items: Seq<TableType>, len_pre: Seq<u8>, cnt_pre: Seq<u8>, rest: Seq<u8>|
                #![trigger len_pre + (cnt_pre + (enc_list(items) + rest))]
                counted_list_wf(items) && leb_u32_delimits(len_pre) && leb_u32_encodes(
                    cnt_pre,
                    items.len() as u32,
                ) && old(reader).remaining() == len_pre + (cnt_pre + (enc_list(items) + rest))
                    ==> r is Ok && list_deq(r->Ok_0.0@, items),
    {
        match deserialize_framed_counted_list::<TableType>(reader) {
            Ok(entries) => Ok(TableSection(entries)),
            Err(e) => Err(e),
        }
    }
}


/// Section holding the module's memory definitions.
#[derive(Clone, Debug, Default)]
pub struct MemorySection(pub Vec<MemoryType>);

impl MemorySection {
    /// New section with the given entries.
    pub fn with_entries(entries: Vec<MemoryType>) -> (r: Self)
        ensures
            r.0 == entries,
    {
        MemorySection(entries)
    }

    /// The section's entries.
    pub fn entries(&self) -> (r: &Vec<MemoryType>)
        ensures
            r == &self.0,
    {
        &self.0
    }

    /// The section's entries, mutable.
    pub fn entries_mut(&mut self) -> (r: &mut Vec<MemoryType>)
        ensures
            *r == old(self).0,
            final(self).0 == *final(r),
    {
        &mut self.0
    }
}

impl Serialize for MemorySection {
    open spec fn enc(&self) -> Seq<u8> {
        enc_framed(enc_counted_list(self.0@))
    }

    open spec fn deq(&self, other: &Self) -> bool {
        list_deq(self.0@, other.0@)
    }

    open spec fn enc_wf(&self) -> bool {
        counted_list_wf(self.0@) && enc_counted_list(self.0@).len() <= u32::MAX
    }

    fn serialize(&self, out: &mut Vec<u8>) {
        serialize_framed_counted_list(&self.0, out);
    }
}

impl Deserialize for MemorySection {
    fn deserialize(reader: &mut Reader) -> (r: Result<Self, Error>)
        ensures
            forall|items: Seq<MemoryType>, len_pre: Seq<u8>, cnt_pre: Seq<u8>, rest: Seq<u8>|
                #![trigger len_pre + (cnt_pre + (enc_list(items) + rest))]
                counted_list_wf(items) && leb_u32_delimits(len_pre) && leb_u32_encodes(
                    cnt_pre,
                    items.len() as u32,
                ) && old(reader).remaining() == len_pre + (cnt_pre + (enc_list(items) + rest))
                    ==> r is Ok && list_deq(r->Ok_0.0@, items),
    {
        match deserialize_framed_counted_list::<MemoryType>(reader) {
            Ok(entries) => Ok(MemorySection(entries)),
            Err(e) => Err(e),
        }
    }
}


/// Section holding the module's global entries.
#[derive(Clone, Debug, Default)]
pub struct GlobalSection(pub Vec<GlobalEntry>);

impl GlobalSection {
    /// New section with the given entries.
    pub fn with_entries(entries: Vec<GlobalEntry>) -> (r: Self)
        ensures
            r.0 == entries,
    {
        GlobalSection(entries)
    }

    /// The section's entries.
    pub fn entries(&self) -> (r: &Vec<GlobalEntry>)
        ensures
            r == &self.0,
    {
        &self.0
    }

    /// The section's entries, mutable.
    pub fn entries_mut(&mut self) -> (r: &mut Vec<GlobalEntry>)
        ensures
            *r == old(self).0,
            final(self).0 == *final(r),
    {
        &mut self.0
    }
}

impl Serialize for GlobalSection {
    open spec fn enc(&self) -> Seq<u8> {
        enc_framed(enc_counted_list(self.0@))
    }

    open spec fn deq(&self, other: &Self) -> bool {
        list_deq(self.0@, other.0@)
    }

    open spec fn enc_wf(&self) -> bool {
        counted_list_wf(self.0@) && enc_counted_list(self.0@).len() <= u32::MAX
    }

    fn serialize(&self, out: &mut Vec<u8>) {
        serialize_framed_counted_list(&self.0, out);
    }
}

impl Deserialize for GlobalSection {
    fn deserialize(reader: &mut Reader) -> (r: Result<Self, Error>)
        ensures
            forall|items: Seq<GlobalEntry>, len_pre: Seq<u8>, cnt_pre: Seq<u8>, rest: Seq<u8>|
                #![trigger len_pre + (cnt_pre + (enc_list(items) + rest))]
                counted_list_wf(items) && leb_u32_delimits(len_pre) && leb_u32_encodes(
                    cnt_pre,
                    items.len() as u32,
                ) && old(reader).remaining() == len_pre + (cnt_pre + (enc_list(items) + rest))
                    ==> r is Ok && list_deq(r->Ok_0.0@, items),
    {
        match deserialize_framed_counted_list::<GlobalEntry>(reader) {
            Ok(entries) => Ok(GlobalSection(entries)),
            Err(e) => Err(e),
        }
    }
}


/// Section holding the module's export entries.
#[derive(Clone, Debug, Default)]
pub struct ExportSection(pub Vec<ExportEntry>);

impl ExportSection {
    /// New section with the given entries.
    pub fn with_entries(entries: Vec<ExportEntry>) -> (r: Self)
        ensures
            r.0 == entries,
    {
        ExportSection(entries)
    }

    /// The section's entries.
    pub fn entries(&self) -> (r: &Vec<ExportEntry>)
        ensures
            r == &self.0,
    {
        &self.0
    }

    /// The section's entries, mutable.
    pub fn entries_mut(&mut self) -> (r: &mut Vec<ExportEntry>)
        ensures
            *r == old(self).0,
            final(self).0 == *final(r),
    {
        &mut self.0
    }
}

impl Serialize for ExportSection {
    open spec fn enc(&self) -> Seq<u8> {
        enc_framed(enc_counted_list(self.0@))
    }

    open spec fn deq(&self, other: &Self) -> bool {
        list_deq(self.0@, other.0@)
    }

    open spec fn enc_wf(&self) -> bool {
        counted_list_wf(self.0@) && enc_counted_list(self.0@).len() <= u32::MAX
    }

    fn serialize(&self, out: &mut Vec<u8>) {
        serialize_framed_counted_list(&self.0, out);
    }
}

impl Deserialize for ExportSection {
    fn deserialize(reader: &mut Reader) -> (r: Result<Self, Error>)
        ensures
            forall|items: Seq<ExportEntry>, len_pre: Seq<u8>, cnt_pre: Seq<u8>, rest: Seq<u8>|
                #![trigger len_pre + (cnt_pre + (enc_list(items) + rest))]
                counted_list_wf(items) && leb_u32_delimits(len_pre) && leb_u32_encodes(
                    cnt_pre,
                    items.len() as u32,
                ) && old(reader).remaining() == len_pre + (cnt_pre + (enc_list(items) + rest))
                    ==> r is Ok && list_deq(r->Ok_0.0@, items),
    {
        match deserialize_framed_counted_list::<ExportEntry>(reader) {
            Ok(entries) => Ok(ExportSection(entries)),
            Err(e) => Err(e),
        }
    }
}


/// Section holding the module's element segments.
#[derive(Clone, Debug, Default)]
pub struct ElementSection(pub Vec<ElementSegment>);

impl ElementSection {
    /// New section with the given entries.
    pub fn with_entries(entries: Vec<ElementSegment>) -> (r: Self)
        ensures
            r.0 == entries,
    {
        ElementSection(entries)
    }

    /// The section's entries.
    pub fn entries(&self) -> (r: &Vec<ElementSegment>)
        ensures
            r == &self.0,
    {
        &self.0
    }

    /// The section's entries, mutable.
    pub fn entries_mut(&mut self) -> (r: &mut Vec<ElementSegment>)
        ensures
            *r == old(self).0,
            final(self).0 == *final(r),
    {
        &mut self.0
    }
}

impl Serialize for ElementSection {
    open spec fn enc(&self) -> Seq<u8> {
        enc_framed(enc_counted_list(self.0@))
    }

    open spec fn deq(&self, other: &Self) -> bool {
        list_deq(self.0@, other.0@)
    }

    open spec fn enc_wf(&self) -> bool {
        counted_list_wf(self.0@) && enc_counted_list(self.0@).len() <= u32::MAX
    }

    fn serialize(&self, out: &mut Vec<u8>) {
        serialize_framed_counted_list(&self.0, out);
    }
}

impl Deserialize for ElementSection {
    fn deserialize(reader: &mut Reader) -> (r: Result<Self, Error>)
        ensures
            forall|items: Seq<ElementSegment>, len_pre: Seq<u8>, cnt_pre: Seq<u8>, rest: Seq<u8>|
                #![trigger len_pre + (cnt_pre + (enc_list(items) + rest))]
                counted_list_wf(items) && leb_u32_delimits(len_pre) && leb_u32_encodes(
                    cnt_pre,
                    items.len() as u32,
                ) && old(reader).remaining() == len_pre + (cnt_pre + (enc_list(items) + rest))
                    ==> r is Ok && list_deq(r->Ok_0.0@, items),
    {
        match deserialize_framed_counted_list::<ElementSegment>(reader) {
            Ok(entries) => Ok(ElementSection(entries)),
            Err(e) => Err(e),
        }
    }
}


/// Section holding the module's function bodies.
#[derive(Clone, Debug, Default)]
pub struct CodeSection(pub Vec<FuncBody>);

impl CodeSection {
    /// New section with the given entries.
    pub fn with_bodies(entries: Vec<FuncBody>) -> (r: Self)
        ensures
            r.0 == entries,
    {
        CodeSection(entries)
    }

    /// The section's entries.
    pub fn bodies(&self) -> (r: &Vec<FuncBody>)
        ensures
            r == &self.0,
    {
        &self.0
    }

    /// The section's entries, mutable.
    pub fn bodies_mut(&mut self) -> (r: &mut Vec<FuncBody>)
        ensures
            *r == old(self).0,
            final(self).0 == *final(r),
    {
        &mut self.0
    }
}

impl Serialize for CodeSection {
    open spec fn enc(&self) -> Seq<u8> {
        enc_framed(enc_counted_list(self.0@))
    }

    open spec fn deq(&self, other: &Self) -> bool {
        list_deq(self.0@, other.0@)
    }

    open spec fn enc_wf(&self) -> bool {
        counted_list_wf(self.0@) && enc_counted_list(self.0@).len() <= u32::MAX
    }

    fn serialize(&self, out: &mut Vec<u8>) {
        serialize_framed_counted_list(&self.0, out);
    }
}

impl Deserialize for CodeSection {
    fn deserialize(reader: &mut Reader) -> (r: Result<Self, Error>)
        ensures
            forall|items: Seq<FuncBody>, len_pre: Seq<u8>, cnt_pre: Seq<u8>, rest: Seq<u8>|
                #![trigger len_pre + (cnt_pre + (enc_list(items) + rest))]
                counted_list_wf(items) && leb_u32_delimits(len_pre) && leb_u32_encodes(
                    cnt_pre,
                    items.len() as u32,
                ) && old(reader).remaining() == len_pre + (cnt_pre + (enc_list(items) + rest))
                    ==> r is Ok && list_deq(r->Ok_0.0@, items),
    {
        match deserialize_framed_counted_list::<FuncBody>(reader) {
            Ok(entries) => Ok(CodeSection(entries)),
            Err(e) => Err(e),
        }
    }
}


/// Section holding the module's data segments.
#[derive(Clone, Debug, Default)]
pub struct DataSection(pub Vec<DataSegment>);

impl DataSection {
    /// New section with the given entries.
    pub fn with_entries(entries: Vec<DataSegment>) -> (r: Self)
        ensures
            r.0 == entries,
    {
        DataSection(entries)
    }

    /// The section's entries.
    pub fn entries(&self) -> (r: &Vec<DataSegment>)
        ensures
            r == &self.0,
    {
        &self.0
    }

    /// The section's entries, mutable.
    pub fn entries_mut(&mut self) -> (r: &mut Vec<DataSegment>)
        ensures
            *r == old(self).0,
            final(self).0 == *final(r),
    {
        &mut self.0
    }
}

impl Serialize for DataSection {
    open spec fn enc(&self) -> Seq<u8> {
        enc_framed(enc_counted_list(self.0@))
    }

    open spec fn deq(&self, other: &Self) -> bool {
        list_deq(self.0@, other.0@)
    }

    open spec fn enc_wf(&self) -> bool {
        counted_list_wf(self.0@) && enc_counted_list(self.0@).len() <= u32::MAX
    }

    fn serialize(&self, out: &mut Vec<u8>) {
        serialize_framed_counted_list(&self.0, out);
    }
}

impl Deserialize for DataSection {
    fn deserialize(reader: &mut Reader) -> (r: Result<Self, Error>)
        ensures
            forall|items: Seq<DataSegment>, len_pre: Seq<u8>, cnt_pre: Seq<u8>, rest: Seq<u8>|
                #![trigger len_pre + (cnt_pre + (enc_list(items) + rest))]
                counted_list_wf(items) && leb_u32_delimits(len_pre) && leb_u32_encodes(
                    cnt_pre,
                    items.len() as u32,
                ) && old(reader).remaining() == len_pre + (cnt_pre + (enc_list(items) + rest))
                    ==> r is Ok && list_deq(r->Ok_0.0@, items),
    {
        match deserialize_framed_counted_list::<DataSegment>(reader) {
            Ok(entries) => Ok(DataSection(entries)),
            Err(e) => Err(e),
        }
    }
}


impl ImportSection {
    /// How many of the imports are functions.
    pub fn functions(&self) -> (r: usize)
        ensures
            r == self.0@.filter(|e: ImportEntry| e.external is Function).len(),
    {
        let mut count: usize = 0;
        let n = self.0.len();
        let mut i: usize = 0;
        proof {
            assert(self.0@.take(0int).filter(|e: ImportEntry| e.external is Function) =~= Seq::<
                ImportEntry,
            >::empty());
        }
        while i < n
            invariant
                i <= n,
                n == self.0@.len(),
                count == self.0@.take(i as int).filter(|e: ImportEntry| e.external is Function).len(),
            decreases n - i,
        {
            let is_fn = match &self.0[i].external {
                External::Function(_) => true,
                _ => false,
            };
            proof {
                reveal_with_fuel(Seq::filter, 2);
                assert(self.0@.take(i + 1int).drop_last() =~= self.0@.take(i as int));
                assert(self.0@.take(i + 1int).last() == self.0@[i as int]);
                broadcast use vstd::seq_lib::group_seq_properties;
            }
            if is_fn {
                count = count + 1;
            }
            i = i + 1;
        }
        proof {
            assert(self.0@.take(n as int) =~= self.0@);
        }
        count
    }

    /// How many of the imports are globals.
    pub fn globals(&self) -> (r: usize)
        ensures
            r == self.0@.filter(|e: ImportEntry| e.external is Global).len(),
    {
        let mut count: usize = 0;
        let n = self.0.len();
        let mut i: usize = 0;
        proof {
            assert(self.0@.take(0int).filter(|e: ImportEntry| e.external is Global) =~= Seq::<
                ImportEntry,
            >::empty());
        }
        while i < n
            invariant
                i <= n,
                n == self.0@.len(),
                count == self.0@.take(i as int).filter(|e: ImportEntry| e.external is Global).len(),
            decreases n - i,
        {
            let is_global = match &self.0[i].external {
                External::Global(_) => true,
                _ => false,
            };
            proof {
                reveal_with_fuel(Seq::filter, 2);
                assert(self.0@.take(i + 1int).drop_last() =~= self.0@.take(i as int));
                assert(self.0@.take(i + 1int).last() == self.0@[i as int]);
                broadcast use vstd::seq_lib::group_seq_properties;
            }
            if is_global {
                count = count + 1;
            }
            i = i + 1;
        }
        proof {
            assert(self.0@.take(n as int) =~= self.0@);
        }
        count
    }
}

/// A custom section: a name and an uninterpreted payload.
#[derive(Clone, Debug, Default)]
pub struct CustomSection {
    /// The section's name.
    pub name: String,
    /// The raw payload bytes.
    pub payload: Vec<u8>,
}

impl CustomSection {
    /// The name of the custom section.
    pub fn name(&self) -> (r: &str)
        ensures
            r@ == self.name@,
    {
        self.name.as_str()
    }

    /// The payload of the custom section.
    pub fn payload(&self) -> (r: &Vec<u8>)
        ensures
            r == &self.payload,
    {
        &self.payload
    }

    /// The name, mutable.
    pub fn name_mut(&mut self) -> (r: &mut String)
        ensures
            *r == old(self).name,
            final(self).name == *final(r),
            final(self).payload == old(self).payload,
    {
        &mut self.name
    }

    /// The payload, mutable.
    pub fn payload_mut(&mut self) -> (r: &mut Vec<u8>)
        ensures
            *r == old(self).payload,
            final(self).payload == *final(r),
            final(self).name == old(self).name,
    {
        &mut self.payload
    }
}

impl Serialize for CustomSection {
    open spec fn enc(&self) -> Seq<u8> {
        enc_framed(self.name.enc() + self.payload@)
    }

    open spec fn deq(&self, other: &Self) -> bool {
        self.name@ == other.name@ && self.payload@ == other.payload@
    }

    open spec fn enc_wf(&self) -> bool {
        self.name.enc_wf() && self.name.enc().len() + self.payload@.len() <= u32::MAX
    }

    fn serialize(&self, out: &mut Vec<u8>) {
        let mut inner: Vec<u8> = Vec::new();
        self.name.serialize(&mut inner);
        write_bytes(&mut inner, self.payload.as_slice());
        write_framed(out, &inner);
        proof {
            assert(out@ =~= old(out)@ + self.enc());
        }
    }
}

impl Deserialize for CustomSection {
    fn deserialize(reader: &mut Reader) -> (r: Result<Self, Error>) {
        let ghost r0 = *old(reader);
        proof {
            assert forall|v: Self, rest: Seq<u8>|
                v.enc_wf() && r0.remaining() == #[trigger] (v.enc() + rest) implies r0.remaining()
                == enc_leb_u32((v.name.enc() + v.payload@).len() as u32) + (v.name.enc() + (
            v.payload@ + rest)) by {
                assert(v.enc() + rest =~= enc_leb_u32((v.name.enc() + v.payload@).len() as u32) + (
                v.name.enc() + (v.payload@ + rest)));
            }
        }
        let section_length = match read_leb_u32(reader, 5) {
            Ok(n) => n,
            Err(e) => {
                proof {
                    assert forall|v: Self, rest: Seq<u8>|
                        v.enc_wf() && r0.remaining() == #[trigger] (v.enc() + rest)
                            implies false by {
                        let n0 = (v.name.enc() + v.payload@).len() as u32;
                        lemma_enc_leb_u32_len(n0);
                        lemma_leb_u32_round_trip(n0, v.name.enc() + (v.payload@ + rest), 5);
                    }
                }
                return Err(e);
            },
        };
        let ghost r1 = *reader;
        proof {
            assert forall|v: Self, rest: Seq<u8>|
                v.enc_wf() && r0.remaining() == #[trigger] (v.enc() + rest) implies section_length
                == (v.name.enc() + v.payload@).len() && r1.remaining() == v.name.enc() + (
            v.payload@ + rest) by {
                let n0 = (v.name.enc() + v.payload@).len() as u32;
                lemma_enc_leb_u32_len(n0);
                lemma_leb_u32_round_trip(n0, v.name.enc() + (v.payload@ + rest), 5);
                lemma_reader_advance(r0, r1, enc_leb_u32(n0), v.name.enc() + (v.payload@ + rest));
            }
        }
        let name_start = reader.pos();
        let name = match String::deserialize(reader) {
            Ok(s) => s,
            Err(e) => { return Err(e); },
        };
        let name_len = reader.pos() - name_start;
        let ghost r2 = *reader;
        proof {
            assert forall|v: Self, rest: Seq<u8>|
                v.enc_wf() && r0.remaining() == #[trigger] (v.enc() + rest) implies name@
                == v.name@ && name_len == v.name.enc().len() && r2.remaining() == v.payload@
                + rest by {
                assert(r1.remaining() == v.name.enc() + (v.payload@ + rest));
                lemma_reader_advance(r1, r2, v.name.enc(), v.payload@ + rest);
            }
        }
        if name_len > section_length as usize {
            proof {
                assert forall|v: Self, rest: Seq<u8>|
                    v.enc_wf() && r0.remaining() == #[trigger] (v.enc() + rest) implies false by {
                }
            }
            return Err(Error::InconsistentLength);
        }
        let payload_left = section_length as usize - name_len;
        let payload = match reader.read_bytes(payload_left) {
            Ok(bs) => bs,
            Err(e) => {
                proof {
                    assert forall|v: Self, rest: Seq<u8>|
                        v.enc_wf() && r0.remaining() == #[trigger] (v.enc() + rest)
                            implies false by {
                        assert(r2.remaining() == v.payload@ + rest);
                        assert(payload_left == v.payload@.len());
                    }
                }
                return Err(e);
            },
        };
        let result = CustomSection { name, payload };
        proof {
            assert forall|v: Self, rest: Seq<u8>|
                v.enc_wf() && r0.remaining() == #[trigger] (v.enc() + rest) implies result.deq(&v)
                && reader.position() == r0.position() + v.enc().len() by {
                assert(r2.remaining() == v.payload@ + rest);
                assert(payload_left == v.payload@.len());
                assert(payload@ =~= v.payload@);
            }
        }
        Ok(result)
    }
}

/// One section of a module.
#[derive(Clone, Debug)]
pub enum Section {
    /// A section with an id the decoder does not know, kept verbatim.
    Unparsed {
        /// The id byte of the section.
        id: u8,
        /// The raw payload, without its length prefix.
        payload: Vec<u8>,
    },
    /// A named custom section.
    Custom(CustomSection),
    /// The type declarations.
    Type(TypeSection),
    /// The imports.
    Import(ImportSection),
    /// The function signature references.
    Function(FunctionSection),
    /// The tables.
    Table(TableSection),
    /// The memories.
    Memory(MemorySection),
    /// The globals.
    Global(GlobalSection),
    /// The exports.
    Export(ExportSection),
    /// The start function's index.
    Start(u32),
    /// The element segments.
    Element(ElementSection),
    /// The function bodies.
    Code(CodeSection),
    /// The data segments.
    Data(DataSection),
}

impl Serialize for Section {
    open spec fn enc(&self) -> Seq<u8> {
        match self {
            Section::Unparsed { id, payload } => seq![*id] + enc_framed(payload@),
            Section::Custom(s) => seq![0x00u8] + s.enc(),
            Section::Type(s) => seq![0x01u8] + s.enc(),
            Section::Import(s) => seq![0x02u8] + s.enc(),
            Section::Function(s) => seq![0x03u8] + s.enc(),
            Section::Table(s) => seq![0x04u8] + s.enc(),
            Section::Memory(s) => seq![0x05u8] + s.enc(),
            Section::Global(s) => seq![0x06u8] + s.enc(),
            Section::Export(s) => seq![0x07u8] + s.enc(),
            Section::Start(i) => seq![0x08u8] + enc_framed(enc_leb_u32(*i)),
            Section::Element(s) => seq![0x09u8] + s.enc(),
            Section::Code(s) => seq![0x0au8] + s.enc(),
            Section::Data(s) => seq![0x0bu8] + s.enc(),
        }
    }

    open spec fn deq(&self, other: &Self) -> bool {
        match (self, other) {
            (Section::Unparsed { id: id1, payload: p1 }, Section::Unparsed { id: id2, payload: p2 }) => id1
                == id2 && p1@ == p2@,
            (Section::Custom(a), Section::Custom(b)) => a.deq(b),
            (Section::Type(a), Section::Type(b)) => a.deq(b),
            (Section::Import(a), Section::Import(b)) => a.deq(b),
            (Section::Function(a), Section::Function(b)) => a.deq(b),
            (Section::Table(a), Section::Table(b)) => a.deq(b),
            (Section::Memory(a), Section::Memory(b)) => a.deq(b),
            (Section::Global(a), Section::Global(b)) => a.deq(b),
            (Section::Export(a), Section::Export(b)) => a.deq(b),
            (Section::Start(a), Section::Start(b)) => a == b,
            (Section::Element(a), Section::Element(b)) => a.deq(b),
            (Section::Code(a), Section::Code(b)) => a.deq(b),
            (Section::Data(a), Section::Data(b)) => a.deq(b),
            _ => false,
        }
    }

    open spec fn enc_wf(&self) -> bool {
        match self {
            Section::Unparsed { id, payload } => *id > 0x0b && payload@.len() <= u32::MAX,
            Section::Custom(s) => s.enc_wf(),
            Section::Type(s) => s.enc_wf(),
            Section::Import(s) => s.enc_wf(),
            Section::Function(s) => s.enc_wf(),
            Section::Table(s) => s.enc_wf(),
            Section::Memory(s) => s.enc_wf(),
            Section::Global(s) => s.enc_wf(),
            Section::Export(s) => s.enc_wf(),
            Section::Start(_) => true,
            Section::Element(s) => s.enc_wf(),
            Section::Code(s) => s.enc_wf(),
            Section::Data(s) => s.enc_wf(),
        }
    }

    fn serialize(&self, out: &mut Vec<u8>) {
        match self {
            Section::Unparsed { id, payload } => {
                out.push(*id);
                write_framed(out, payload);
            },
            Section::Custom(s) => {
                out.push(0x00);
                s.serialize(out);
            },
            Section::Type(s) => {
                out.push(0x01);
                s.serialize(out);
            },
            Section::Import(s) => {
                out.push(0x02);
                s.serialize(out);
            },
            Section::Function(s) => {
                out.push(0x03);
                s.serialize(out);
            },
            Section::Table(s) => {
                out.push(0x04);
                s.serialize(out);
            },
            Section::Memory(s) => {
                out.push(0x05);
                s.serialize(out);
            },
            Section::Global(s) => {
                out.push(0x06);
                s.serialize(out);
            },
            Section::Export(s) => {
                out.push(0x07);
                s.serialize(out);
            },
            Section::Start(i) => {
                out.push(0x08);
                let mut payload: Vec<u8> = Vec::new();
                write_leb_u32(&mut payload, *i);
                proof {
                    lemma_enc_leb_u32_len(*i);
                }
                write_framed(out, &payload);
            },
            Section::Element(s) => {
                out.push(0x09);
                s.serialize(out);
            },
            Section::Code(s) => {
                out.push(0x0a);
                s.serialize(out);
            },
            Section::Data(s) => {
                out.push(0x0b);
                s.serialize(out);
            },
        }
        proof {
            assert(out@ =~= old(out)@ + self.enc());
        }
    }
}




/// Decode the payload of a start section, after its id byte.
#[verifier::rlimit(100)]
#[verifier::spinoff_prover]
fn read_start_section<'a>(reader: &mut Reader<'a>, Ghost(r0): Ghost<Reader<'a>>) -> (r: Result<
    Section,
    Error,
>)
    requires
        old(reader).wf(),
        r0.wf(),
        old(reader).input() == r0.input(),
        old(reader).position() == r0.position() + 1,
        r0.remaining().len() > 0,
        r0.remaining()[0] == 0x08,
    ensures
        final(reader).wf(),
        final(reader).input() == old(reader).input(),
        final(reader).position() >= old(reader).position(),
        forall|v: Section, rest: Seq<u8>|
            v.enc_wf() && r0.remaining() == #[trigger] (v.enc() + rest) ==> r is Ok
                && r->Ok_0.deq(&v) && final(reader).position() == r0.position() + v.enc().len(),
{
    let ghost r1 = *old(reader);
    proof {
        assert forall|v: Section, rest: Seq<u8>|
            v.enc_wf() && r0.remaining() == #[trigger] (v.enc() + rest) implies v.enc()[0] == 0x08 && r1.remaining() == v.enc().skip(1)
            + rest by {
            assert(v.enc() =~= seq![v.enc()[0]] + v.enc().skip(1));
            assert(v.enc() + rest =~= seq![v.enc()[0]] + (v.enc().skip(1) + rest));
            assert(r0.remaining()[0] == v.enc()[0]);
            lemma_reader_advance(r0, r1, seq![v.enc()[0]], v.enc().skip(1) + rest);
        }
    }
    let _section_length = match read_leb_u32(reader, 5) {
        Ok(n) => n,
        Err(e) => {
            proof {
                assert forall|v: Section, rest: Seq<u8>| v.enc_wf() && r0.remaining() == #[trigger] (v.enc() + rest) implies false by {
                    let i0 = v->Start_0;
                    assert(v.enc().skip(1) =~= enc_framed(enc_leb_u32(i0)));
                    lemma_enc_leb_u32_len(i0);
                    let n0 = enc_leb_u32(i0).len() as u32;
                    lemma_enc_leb_u32_len(n0);
                    lemma_leb_u32_round_trip(n0, enc_leb_u32(i0) + rest, 5);
                    assert(v.enc().skip(1) + rest =~= enc_leb_u32(n0) + (enc_leb_u32(i0) + rest));
                }
            }
            return Err(e);
        },
    };
    let ghost r2 = *reader;
    let index = match read_leb_u32(reader, 5) {
        Ok(i) => i,
        Err(e) => {
            proof {
                assert forall|v: Section, rest: Seq<u8>| v.enc_wf() && r0.remaining() == #[trigger] (v.enc() + rest) implies false by {
                    let i0 = v->Start_0;
                    assert(v.enc().skip(1) =~= enc_framed(enc_leb_u32(i0)));
                    lemma_enc_leb_u32_len(i0);
                    let n0 = enc_leb_u32(i0).len() as u32;
                    lemma_enc_leb_u32_len(n0);
                    lemma_leb_u32_round_trip(n0, enc_leb_u32(i0) + rest, 5);
                    assert(v.enc().skip(1) + rest =~= enc_leb_u32(n0) + (enc_leb_u32(i0) + rest));
                    lemma_reader_advance(r1, r2, enc_leb_u32(n0), enc_leb_u32(i0) + rest);
                    lemma_leb_u32_round_trip(i0, rest, 5);
                }
            }
            return Err(e);
        },
    };
    proof {
        assert forall|v: Section, rest: Seq<u8>|
            v.enc_wf() && r0.remaining() == #[trigger] (v.enc() + rest) implies Section::Start(index).deq(&v) && reader.position()
            == r0.position() + v.enc().len() by {
            let i0 = v->Start_0;
            assert(v.enc().skip(1) =~= enc_framed(enc_leb_u32(i0)));
            lemma_enc_leb_u32_len(i0);
            let n0 = enc_leb_u32(i0).len() as u32;
            lemma_enc_leb_u32_len(n0);
            lemma_leb_u32_round_trip(n0, enc_leb_u32(i0) + rest, 5);
            assert(v.enc().skip(1) + rest =~= enc_leb_u32(n0) + (enc_leb_u32(i0) + rest));
            lemma_reader_advance(r1, r2, enc_leb_u32(n0), enc_leb_u32(i0) + rest);
            lemma_leb_u32_round_trip(i0, rest, 5);
            assert(v.enc().len() == 1 + enc_leb_u32(n0).len() + enc_leb_u32(i0).len());
        }
    }
    Ok(Section::Start(index))
}

/// Keep a section with an unknown id verbatim, after its id byte.
#[verifier::rlimit(100)]
#[verifier::spinoff_prover]
fn read_unparsed_section<'a>(
    reader: &mut Reader<'a>,
    id: u8,
    Ghost(r0): Ghost<Reader<'a>>,
) -> (r: Result<Section, Error>)
    requires
        old(reader).wf(),
        r0.wf(),
        old(reader).input() == r0.input(),
        old(reader).position() == r0.position() + 1,
        r0.remaining().len() > 0,
        r0.remaining()[0] == id,
        id > 0x0b,
    ensures
        final(reader).wf(),
        final(reader).input() == old(reader).input(),
        final(reader).position() >= old(reader).position(),
        forall|v: Section, rest: Seq<u8>|
            v.enc_wf() && r0.remaining() == #[trigger] (v.enc() + rest) ==> r is Ok
                && r->Ok_0.deq(&v) && final(reader).position() == r0.position() + v.enc().len(),
{
    let ghost r1 = *old(reader);
    proof {
        assert forall|v: Section, rest: Seq<u8>|
            v.enc_wf() && r0.remaining() == #[trigger] (v.enc() + rest) implies v.enc()[0] == id && v is Unparsed && r1.remaining()
            == v.enc().skip(1) + rest by {
            assert(v.enc() =~= seq![v.enc()[0]] + v.enc().skip(1));
            assert(v.enc() + rest =~= seq![v.enc()[0]] + (v.enc().skip(1) + rest));
            assert(r0.remaining()[0] == v.enc()[0]);
            lemma_reader_advance(r0, r1, seq![v.enc()[0]], v.enc().skip(1) + rest);
        }
    }
    let len = match read_leb_u32(reader, 5) {
        Ok(n) => n,
        Err(e) => {
            proof {
                assert forall|v: Section, rest: Seq<u8>| v.enc_wf() && r0.remaining() == #[trigger] (v.enc() + rest) implies false by {
                    let p0 = v->Unparsed_payload;
                    assert(v.enc().skip(1) =~= enc_framed(p0@));
                    let n0 = p0@.len() as u32;
                    lemma_enc_leb_u32_len(n0);
                    lemma_leb_u32_round_trip(n0, p0@ + rest, 5);
                    assert(v.enc().skip(1) + rest =~= enc_leb_u32(n0) + (p0@ + rest));
                }
            }
            return Err(e);
        },
    };
    let ghost r2 = *reader;
    let payload = match reader.read_bytes(len as usize) {
        Ok(bs) => bs,
        Err(e) => {
            proof {
                assert forall|v: Section, rest: Seq<u8>| v.enc_wf() && r0.remaining() == #[trigger] (v.enc() + rest) implies false by {
                    let p0 = v->Unparsed_payload;
                    assert(v.enc().skip(1) =~= enc_framed(p0@));
                    let n0 = p0@.len() as u32;
                    lemma_enc_leb_u32_len(n0);
                    lemma_leb_u32_round_trip(n0, p0@ + rest, 5);
                    assert(v.enc().skip(1) + rest =~= enc_leb_u32(n0) + (p0@ + rest));
                    lemma_reader_advance(r1, r2, enc_leb_u32(n0), p0@ + rest);
                }
            }
            return Err(e);
        },
    };
    let result = Section::Unparsed { id, payload };
    proof {
        assert forall|v: Section, rest: Seq<u8>|
            v.enc_wf() && r0.remaining() == #[trigger] (v.enc() + rest) implies result.deq(&v) && reader.position() == r0.position()
            + v.enc().len() by {
            let p0 = v->Unparsed_payload;
            assert(v.enc().skip(1) =~= enc_framed(p0@));
            let n0 = p0@.len() as u32;
            lemma_enc_leb_u32_len(n0);
            lemma_leb_u32_round_trip(n0, p0@ + rest, 5);
            assert(v.enc().skip(1) + rest =~= enc_leb_u32(n0) + (p0@ + rest));
            lemma_reader_advance(r1, r2, enc_leb_u32(n0), p0@ + rest);
            assert(payload@ =~= p0@);
        }
    }
    Ok(result)
}


/// Decode the payload of a function section, after its id byte.
#[verifier::rlimit(100)]
#[verifier::spinoff_prover]
fn read_function_section_arm<'a>(reader: &mut Reader<'a>, Ghost(r0): Ghost<Reader<'a>>) -> (r:
    Result<Section, Error>)
    requires
        old(reader).wf(),
        r0.wf(),
        old(reader).input() == r0.input(),
        old(reader).position() == r0.position() + 1,
        r0.remaining().len() > 0,
        r0.remaining()[0] == 0x03,
    ensures
        final(reader).wf(),
        final(reader).input() == old(reader).input(),
        final(reader).position() >= old(reader).position(),
        forall|v: Section, rest: Seq<u8>|
            v.enc_wf() && r0.remaining() == #[trigger] (v.enc() + rest) ==> r is Ok
                && r->Ok_0.deq(&v) && final(reader).position() == r0.position() + v.enc().len(),
        forall|refs: Seq<u32>, len_pre: Seq<u8>, cnt_pre: Seq<u8>, chunks: Seq<Seq<u8>>, rest: Seq<u8>|
            #![trigger chunks_encode_u32s(chunks, refs), len_pre + (cnt_pre + (concat_chunks(chunks) + rest))]
            refs.len() <= u32::MAX && leb_u32_delimits(len_pre) && leb_u32_encodes(
                cnt_pre,
                refs.len() as u32,
            ) && chunks_encode_u32s(chunks, refs) && r0.remaining() == seq![0x03u8] + (len_pre + (
            cnt_pre + (concat_chunks(chunks) + rest))) ==> r is Ok && r->Ok_0 is Function && r->Ok_0->Function_0.0@.len() == refs.len() && (
            forall|k: int| 0 <= k < refs.len() ==> (#[trigger] r->Ok_0->Function_0.0@[k]).0
                == refs[k]),
{
    let ghost r1 = *old(reader);
    proof {
        assert forall|refs: Seq<u32>, len_pre: Seq<u8>, cnt_pre: Seq<u8>, chunks: Seq<Seq<u8>>, rest: Seq<u8>|
            #![trigger chunks_encode_u32s(chunks, refs), len_pre + (cnt_pre + (concat_chunks(chunks) + rest))]
            refs.len() <= u32::MAX && leb_u32_delimits(len_pre) && leb_u32_encodes(
                cnt_pre,
                refs.len() as u32,
            ) && chunks_encode_u32s(chunks, refs) && r0.remaining() == seq![0x03u8] + (len_pre + (
            cnt_pre + (concat_chunks(chunks) + rest))) implies r1.remaining() == len_pre + (cnt_pre + (concat_chunks(chunks)
            + rest)) by {
            lemma_reader_advance(
                r0,
                r1,
                seq![0x03u8],
                len_pre + (cnt_pre + (concat_chunks(chunks) + rest)),
            );
        }
        assert forall|v: Section, rest: Seq<u8>|
            v.enc_wf() && r0.remaining() == #[trigger] (v.enc() + rest) implies v is Function && r1.remaining() == v.enc().skip(1) + rest by {
            assert(v.enc() =~= seq![v.enc()[0]] + v.enc().skip(1));
            assert(v.enc() + rest =~= seq![v.enc()[0]] + (v.enc().skip(1) + rest));
            assert(r0.remaining()[0] == v.enc()[0]);
            lemma_reader_advance(r0, r1, seq![v.enc()[0]], v.enc().skip(1) + rest);
        }
    }
    let s = match FunctionSection::deserialize(reader) {
        Ok(s) => s,
        Err(e) => {
            proof {
                assert forall|v: Section, rest: Seq<u8>| v.enc_wf() && r0.remaining() == #[trigger] (v.enc() + rest) implies false by {
                    let s0 = v->Function_0;
                    assert(v.enc().skip(1) =~= s0.enc());
                    assert(r1.remaining() == s0.enc() + rest);
                }
                assert forall|refs: Seq<u32>, len_pre: Seq<u8>, cnt_pre: Seq<u8>, chunks: Seq<Seq<u8>>, rest: Seq<u8>|
                    #![trigger chunks_encode_u32s(chunks, refs), len_pre + (cnt_pre + (concat_chunks(chunks) + rest))]
                    refs.len() <= u32::MAX && leb_u32_delimits(len_pre) && leb_u32_encodes(
                cnt_pre,
                refs.len() as u32,
            ) && chunks_encode_u32s(chunks, refs) && r0.remaining() == seq![0x03u8] + (len_pre + (
            cnt_pre + (concat_chunks(chunks) + rest))) implies false by {
                    assert(r1.remaining() == len_pre + (cnt_pre + (concat_chunks(chunks)
                        + rest)));
                }
            }
            return Err(e);
        },
    };
    let result = Section::Function(s);
    proof {
        assert forall|v: Section, rest: Seq<u8>|
            v.enc_wf() && r0.remaining() == #[trigger] (v.enc() + rest) implies result.deq(&v) && reader.position()
            == r0.position() + v.enc().len() by {
            let s0 = v->Function_0;
            assert(v.enc().skip(1) =~= s0.enc());
            assert(r1.remaining() == s0.enc() + rest);
        }
        assert forall|refs: Seq<u32>, len_pre: Seq<u8>, cnt_pre: Seq<u8>, chunks: Seq<Seq<u8>>, rest: Seq<u8>|
            #![trigger chunks_encode_u32s(chunks, refs), len_pre + (cnt_pre + (concat_chunks(chunks) + rest))]
            refs.len() <= u32::MAX && leb_u32_delimits(len_pre) && leb_u32_encodes(
                cnt_pre,
                refs.len() as u32,
            ) && chunks_encode_u32s(chunks, refs) && r0.remaining() == seq![0x03u8] + (len_pre + (
            cnt_pre + (concat_chunks(chunks) + rest))) implies result is Function && result->Function_0.0@.len()
            == refs.len() && (forall|k: int|
            0 <= k < refs.len() ==> (#[trigger] result->Function_0.0@[k]).0 == refs[k]) by {
            assert(r1.remaining() == len_pre + (cnt_pre + (concat_chunks(chunks) + rest)));
        }
    }
    Ok(result)
}

impl Deserialize for Section {
    #[verifier::rlimit(100)]
    fn deserialize(reader: &mut Reader) -> (r: Result<Self, Error>)
        ensures
            old(reader).remaining().len() == 0 ==> r == Err::<Section, Error>(
                Error::UnexpectedEof,
            ),
            forall|refs: Seq<u32>, len_pre: Seq<u8>, cnt_pre: Seq<u8>, chunks: Seq<Seq<u8>>, rest: Seq<u8>|
                #![trigger chunks_encode_u32s(chunks, refs), len_pre + (cnt_pre + (concat_chunks(chunks) + rest))]
                refs.len() <= u32::MAX && leb_u32_delimits(len_pre) && leb_u32_encodes(
                cnt_pre,
                refs.len() as u32,
            ) && chunks_encode_u32s(chunks, refs) && old(reader).remaining() == seq![0x03u8] + (
            len_pre + (cnt_pre + (concat_chunks(chunks) + rest))) ==> r is Ok && r->Ok_0 is Function && r->Ok_0->Function_0.0@.len() == refs.len() && (
                forall|k: int| 0 <= k < refs.len() ==> (#[trigger] r->Ok_0->Function_0.0@[k]).0
                    == refs[k]),
    {
        let ghost r0 = *old(reader);
        let id = match reader.read_u8() {
            Ok(b) => b,
            Err(_) => {
                proof {
                    assert forall|v: Self, rest: Seq<u8>| v.enc_wf() && r0.remaining() == #[trigger] (v.enc() + rest) implies false by {
                        assert(v.enc() =~= seq![v.enc()[0]] + v.enc().skip(1));
                        assert(r0.remaining().len() > 0);
                    }
                    assert forall|refs: Seq<u32>, len_pre: Seq<u8>, cnt_pre: Seq<u8>, chunks: Seq<Seq<u8>>, rest: Seq<u8>|
                        #![trigger chunks_encode_u32s(chunks, refs), len_pre + (cnt_pre + (concat_chunks(chunks) + rest))]
                        refs.len() <= u32::MAX && leb_u32_delimits(len_pre) && leb_u32_encodes(
                cnt_pre,
                refs.len() as u32,
            ) && chunks_encode_u32s(chunks, refs) && r0.remaining() == seq![0x03u8] + (
            len_pre + (cnt_pre + (concat_chunks(chunks) + rest))) implies false by {
                        assert(r0.remaining().len() > 0);
                    }
                }
                return Err(Error::UnexpectedEof);
            },
        };
        let ghost r1 = *reader;
        proof {
            assert forall|refs: Seq<u32>, len_pre: Seq<u8>, cnt_pre: Seq<u8>, chunks: Seq<Seq<u8>>, rest: Seq<u8>|
                #![trigger chunks_encode_u32s(chunks, refs), len_pre + (cnt_pre + (concat_chunks(chunks) + rest))]
                refs.len() <= u32::MAX && leb_u32_delimits(len_pre) && leb_u32_encodes(
                cnt_pre,
                refs.len() as u32,
            ) && chunks_encode_u32s(chunks, refs) && r0.remaining() == seq![0x03u8] + (
            len_pre + (cnt_pre + (concat_chunks(chunks) + rest))) implies id == 0x03 by {
                assert((seq![0x03u8] + (len_pre + (cnt_pre + (concat_chunks(chunks) + rest))))[0]
                    == 0x03);
            }
            assert forall|v: Self, rest: Seq<u8>|
                v.enc_wf() && r0.remaining() == #[trigger] (v.enc() + rest) implies id == v.enc()[0] && r1.remaining() == v.enc().skip(1)
                + rest by {
                assert(v.enc() =~= seq![v.enc()[0]] + v.enc().skip(1));
                assert(v.enc() + rest =~= seq![v.enc()[0]] + (v.enc().skip(1) + rest));
                assert(r0.remaining()[0] == v.enc()[0]);
                lemma_reader_advance(r0, r1, seq![v.enc()[0]], v.enc().skip(1) + rest);
            }
        }
        match id {
        0x0 => {
            let s = match CustomSection::deserialize(reader) {
                Ok(s) => s,
                Err(e) => {
                    proof {
                        assert forall|v: Self, rest: Seq<u8>| v.enc_wf() && r0.remaining() == #[trigger] (v.enc() + rest) implies false by {
                            let s0 = v->Custom_0;
                            assert(v.enc().skip(1) =~= s0.enc());
                            assert(r1.remaining() == s0.enc() + rest);
                        }
                    }
                    return Err(e);
                },
            };
            proof {
                assert forall|v: Self, rest: Seq<u8>|
                    v.enc_wf() && r0.remaining() == #[trigger] (v.enc() + rest) implies Section::Custom(s).deq(&v) && reader.position()
                    == r0.position() + v.enc().len() by {
                    let s0 = v->Custom_0;
                    assert(v.enc().skip(1) =~= s0.enc());
                    assert(r1.remaining() == s0.enc() + rest);
                }
            }
            Ok(Section::Custom(s))
        },
        0x1 => {
            let s = match TypeSection::deserialize(reader) {
                Ok(s) => s,
                Err(e) => {
                    proof {
                        assert forall|v: Self, rest: Seq<u8>| v.enc_wf() && r0.remaining() == #[trigger] (v.enc() + rest) implies false by {
                            let s0 = v->Type_0;
                            assert(v.enc().skip(1) =~= s0.enc());
                            assert(r1.remaining() == s0.enc() + rest);
                        }
                    }
                    return Err(e);
                },
            };
            proof {
                assert forall|v: Self, rest: Seq<u8>|
                    v.enc_wf() && r0.remaining() == #[trigger] (v.enc() + rest) implies Section::Type(s).deq(&v) && reader.position()
                    == r0.position() + v.enc().len() by {
                    let s0 = v->Type_0;
                    assert(v.enc().skip(1) =~= s0.enc());
                    assert(r1.remaining() == s0.enc() + rest);
                }
            }
            Ok(Section::Type(s))
        },
        0x2 => {
            let s = match ImportSection::deserialize(reader) {
                Ok(s) => s,
                Err(e) => {
                    proof {
                        assert forall|v: Self, rest: Seq<u8>| v.enc_wf() && r0.remaining() == #[trigger] (v.enc() + rest) implies false by {
                            let s0 = v->Import_0;
                            assert(v.enc().skip(1) =~= s0.enc());
                            assert(r1.remaining() == s0.enc() + rest);
                        }
                    }
                    return Err(e);
                },
            };
            proof {
                assert forall|v: Self, rest: Seq<u8>|
                    v.enc_wf() && r0.remaining() == #[trigger] (v.enc() + rest) implies Section::Import(s).deq(&v) && reader.position()
                    == r0.position() + v.enc().len() by {
                    let s0 = v->Import_0;
                    assert(v.enc().skip(1) =~= s0.enc());
                    assert(r1.remaining() == s0.enc() + rest);
                }
            }
            Ok(Section::Import(s))
        },
        0x3 => { read_function_section_arm(reader, Ghost(r0)) },
        0x4 => {
            let s = match TableSection::deserialize(reader) {
                Ok(s) => s,
                Err(e) => {
                    proof {
                        assert forall|v: Self, rest: Seq<u8>| v.enc_wf() && r0.remaining() == #[trigger] (v.enc() + rest) implies false by {
                            let s0 = v->Table_0;
                            assert(v.enc().skip(1) =~= s0.enc());
                            assert(r1.remaining() == s0.enc() + rest);
                        }
                    }
                    return Err(e);
                },
            };
            proof {
                assert forall|v: Self, rest: Seq<u8>|
                    v.enc_wf() && r0.remaining() == #[trigger] (v.enc() + rest) implies Section::Table(s).deq(&v) && reader.position()
                    == r0.position() + v.enc().len() by {
                    let s0 = v->Table_0;
                    assert(v.enc().skip(1) =~= s0.enc());
                    assert(r1.remaining() == s0.enc() + rest);
                }
            }
            Ok(Section::Table(s))
        },
        0x5 => {
            let s = match MemorySection::deserialize(reader) {
                Ok(s) => s,
                Err(e) => {
                    proof {
                        assert forall|v: Self, rest: Seq<u8>| v.enc_wf() && r0.remaining() == #[trigger] (v.enc() + rest) implies false by {
                            let s0 = v->Memory_0;
                            assert(v.enc().skip(1) =~= s0.enc());
                            assert(r1.remaining() == s0.enc() + rest);
                        }
                    }
                    return Err(e);
                },
            };
            proof {
                assert forall|v: Self, rest: Seq<u8>|
                    v.enc_wf() && r0.remaining() == #[trigger] (v.enc() + rest) implies Section::Memory(s).deq(&v) && reader.position()
                    == r0.position() + v.enc().len() by {
                    let s0 = v->Memory_0;
                    assert(v.enc().skip(1) =~= s0.enc());
                    assert(r1.remaining() == s0.enc() + rest);
                }
            }
            Ok(Section::Memory(s))
        },
        0x6 => {
            let s = match GlobalSection::deserialize(reader) {
                Ok(s) => s,
                Err(e) => {
                    proof {
                        assert forall|v: Self, rest: Seq<u8>| v.enc_wf() && r0.remaining() == #[trigger] (v.enc() + rest) implies false by {
                            let s0 = v->Global_0;
                            assert(v.enc().skip(1) =~= s0.enc());
                            assert(r1.remaining() == s0.enc() + rest);
                        }
                    }
                    return Err(e);
                },
            };
            proof {
                assert forall|v: Self, rest: Seq<u8>|
                    v.enc_wf() && r0.remaining() == #[trigger] (v.enc() + rest) implies Section::Global(s).deq(&v) && reader.position()
                    == r0.position() + v.enc().len() by {
                    let s0 = v->Global_0;
                    assert(v.enc().skip(1) =~= s0.enc());
                    assert(r1.remaining() == s0.enc() + rest);
                }
            }
            Ok(Section::Global(s))
        },
        0x7 => {
            let s = match ExportSection::deserialize(reader) {
                Ok(s) => s,
                Err(e) => {
                    proof {
                        assert forall|v: Self, rest: Seq<u8>| v.enc_wf() && r0.remaining() == #[trigger] (v.enc() + rest) implies false by {
                            let s0 = v->Export_0;
                            assert(v.enc().skip(1) =~= s0.enc());
                            assert(r1.remaining() == s0.enc() + rest);
                        }
                    }
                    return Err(e);
                },
            };
            proof {
                assert forall|v: Self, rest: Seq<u8>|
                    v.enc_wf() && r0.remaining() == #[trigger] (v.enc() + rest) implies Section::Export(s).deq(&v) && reader.position()
                    == r0.position() + v.enc().len() by {
                    let s0 = v->Export_0;
                    assert(v.enc().skip(1) =~= s0.enc());
                    assert(r1.remaining() == s0.enc() + rest);
                }
            }
            Ok(Section::Export(s))
        },
        0x9 => {
            let s = match ElementSection::deserialize(reader) {
                Ok(s) => s,
                Err(e) => {
                    proof {
                        assert forall|v: Self, rest: Seq<u8>| v.enc_wf() && r0.remaining() == #[trigger] (v.enc() + rest) implies false by {
                            let s0 = v->Element_0;
                            assert(v.enc().skip(1) =~= s0.enc());
                            assert(r1.remaining() == s0.enc() + rest);
                        }
                    }
                    return Err(e);
                },
            };
            proof {
                assert forall|v: Self, rest: Seq<u8>|
                    v.enc_wf() && r0.remaining() == #[trigger] (v.enc() + rest) implies Section::Element(s).deq(&v) && reader.position()
                    == r0.position() + v.enc().len() by {
                    let s0 = v->Element_0;
                    assert(v.enc().skip(1) =~= s0.enc());
                    assert(r1.remaining() == s0.enc() + rest);
                }
            }
            Ok(Section::Element(s))
        },
        0xa => {
            let s = match CodeSection::deserialize(reader) {
                Ok(s) => s,
                Err(e) => {
                    proof {
                        assert forall|v: Self, rest: Seq<u8>| v.enc_wf() && r0.remaining() == #[trigger] (v.enc() + rest) implies false by {
                            let s0 = v->Code_0;
                            assert(v.enc().skip(1) =~= s0.enc());
                            assert(r1.remaining() == s0.enc() + rest);
                        }
                    }
                    return Err(e);
                },
            };
            proof {
                assert forall|v: Self, rest: Seq<u8>|
                    v.enc_wf() && r0.remaining() == #[trigger] (v.enc() + rest) implies Section::Code(s).deq(&v) && reader.position()
                    == r0.position() + v.enc().len() by {
                    let s0 = v->Code_0;
                    assert(v.enc().skip(1) =~= s0.enc());
                    assert(r1.remaining() == s0.enc() + rest);
                }
            }
            Ok(Section::Code(s))
        },
        0xb => {
            let s = match DataSection::deserialize(reader) {
                Ok(s) => s,
                Err(e) => {
                    proof {
                        assert forall|v: Self, rest: Seq<u8>| v.enc_wf() && r0.remaining() == #[trigger] (v.enc() + rest) implies false by {
                            let s0 = v->Data_0;
                            assert(v.enc().skip(1) =~= s0.enc());
                            assert(r1.remaining() == s0.enc() + rest);
                        }
                    }
                    return Err(e);
                },
            };
            proof {
                assert forall|v: Self, rest: Seq<u8>|
                    v.enc_wf() && r0.remaining() == #[trigger] (v.enc() + rest) implies Section::Data(s).deq(&v) && reader.position()
                    == r0.position() + v.enc().len() by {
                    let s0 = v->Data_0;
                    assert(v.enc().skip(1) =~= s0.enc());
                    assert(r1.remaining() == s0.enc() + rest);
                }
            }
            Ok(Section::Data(s))
        },
            0x08 => { read_start_section(reader, Ghost(r0)) },
            _ => { read_unparsed_section(reader, id, Ghost(r0)) },
        }
    }
}


/// Serialize a sequence of sections back to back.
pub fn serialize_sections(sections: &Vec<Section>, out: &mut Vec<u8>)
    requires
        crate::elements::traits::list_wf(sections@),
    ensures
        final(out)@ == old(out)@ + crate::elements::traits::enc_list(sections@),
{
    let n = sections.len();
    let mut i: usize = 0;
    proof {
        assert(crate::elements::traits::enc_list(sections@.take(0int)) =~= Seq::<u8>::empty());
        assert(out@ =~= old(out)@ + crate::elements::traits::enc_list(sections@.take(0int)));
    }
    while i < n
        invariant
            i <= n,
            n == sections@.len(),
            crate::elements::traits::list_wf(sections@),
            out@ == old(out)@ + crate::elements::traits::enc_list(sections@.take(i as int)),
        decreases n - i,
    {
        let s = &sections[i];
        s.serialize(out);
        proof {
            crate::elements::traits::lemma_enc_list_take_succ(sections@, i as int);
            assert(out@ =~= old(out)@ + crate::elements::traits::enc_list(
                sections@.take(i + 1int),
            ));
        }
        i = i + 1;
    }
    proof {
        assert(sections@.take(n as int) =~= sections@);
    }
}

} // verus!
