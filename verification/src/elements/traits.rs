//! The serialization and deserialization contracts shared by every element
//! of the binary format.

use vstd::prelude::*;
use crate::elements::error::Error;
use crate::elements::io::Reader;

verus! {

/// A value with a canonical byte encoding.
pub trait Serialize: Sized {
    /// The canonical encoding of this value.
    spec fn enc(&self) -> Seq<u8>;

    /// Representation equality: plain equality, except that strings are
    /// compared by their characters (two `String` values with the same
    /// characters count as the same element).
    open spec fn deq(&self, other: &Self) -> bool {
        self == other
    }

    /// Values whose encoding the decoder maps back to the value itself.
    ///
    /// Machine-level side conditions (a list length that must fit the
    /// 32-bit count prefix, a well-nested opcode sequence) live here; for
    /// most elements every value qualifies.
    spec fn enc_wf(&self) -> bool;

    /// Append the canonical encoding of `self` to `out`.
    fn serialize(&self, out: &mut Vec<u8>)
        requires
            self.enc_wf(),
        ensures
            final(out)@ == old(out)@ + self.enc(),
    ;
}

/// A value that can be read back from the byte stream.
///
/// The contract pins the decoder on every encoded input: whenever the
/// remaining input starts with the canonical encoding of a well-formed
/// value, the decoder returns exactly that value and consumes exactly its
/// encoding.
pub trait Deserialize: Serialize {
    /// Decode one value from the front of `reader`.
    fn deserialize(reader: &mut Reader) -> (r: Result<Self, Error>)
        requires
            old(reader).wf(),
        ensures
            final(reader).wf(),
            final(reader).input() == old(reader).input(),
            final(reader).position() >= old(reader).position(),
            r is Ok ==> final(reader).position() > old(reader).position(),
            forall|v: Self, rest: Seq<u8>|
                v.enc_wf() && old(reader).remaining() == #[trigger] (v.enc() + rest)
                    ==> r is Ok && r->Ok_0.deq(&v) && final(reader).position() == old(
                    reader,
                ).position() + v.enc().len(),
    ;
}

/// Concatenated encodings of a sequence of values.
pub open spec fn enc_list<T: Serialize>(items: Seq<T>) -> Seq<u8>
    decreases items.len(),
{
    if items.len() == 0 {
        Seq::empty()
    } else {
        items[0].enc() + enc_list(items.drop_first())
    }
}

/// Every element of the sequence is well formed for encoding.
pub open spec fn list_wf<T: Serialize>(items: Seq<T>) -> bool {
    forall|i: int| 0 <= i < items.len() ==> (#[trigger] items[i]).enc_wf()
}

/// Splitting one encoding off the front of an encoded sequence.
pub proof fn lemma_enc_list_first<T: Serialize>(items: Seq<T>, i: int)
    requires
        0 <= i < items.len(),
    ensures
        enc_list(items.skip(i)) == items[i].enc() + enc_list(items.skip(i + 1)),
{
    let s = items.skip(i);
    assert(s.len() > 0);
    assert(s[0] == items[i]);
    assert(s.drop_first() =~= items.skip(i + 1));
}

/// Extending an encoded prefix of a sequence by one element.
pub proof fn lemma_enc_list_take_succ<T: Serialize>(items: Seq<T>, i: int)
    requires
        0 <= i < items.len(),
    ensures
        enc_list(items.take(i + 1)) == enc_list(items.take(i)) + items[i].enc(),
    decreases i,
{
    if i == 0 {
        assert(items.take(1).drop_first() =~= items.take(0));
        assert(enc_list(items.take(1)) == items[0].enc() + enc_list(items.take(0)));
        assert(enc_list(items.take(0)) == Seq::<u8>::empty());
        assert(enc_list(items.take(1)) =~= enc_list(items.take(0)) + items[0].enc());
    } else {
        let sub = items.drop_first();
        lemma_enc_list_take_succ(sub, i - 1);
        assert(items.take(i + 1).drop_first() =~= sub.take(i));
        assert(items.take(i).drop_first() =~= sub.take(i - 1));
        assert(items.take(i + 1)[0] == items[0]);
        assert(items.take(i)[0] == items[0]);
        assert(enc_list(items.take(i + 1)) == items[0].enc() + enc_list(sub.take(i)));
        assert(enc_list(items.take(i)) == items[0].enc() + enc_list(sub.take(i - 1)));
        assert(sub.take(i)[i - 1] == items[i]);
        assert(enc_list(sub.take(i)) == enc_list(sub.take(i - 1)) + items[i].enc());
        assert(enc_list(items.take(i + 1)) =~= enc_list(items.take(i)) + items[i].enc());
    }
}

} // verus!
