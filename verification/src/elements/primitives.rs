//! LEB128 and fixed-width integer primitives of the binary format.
//!
//! Each primitive comes with a specification-level encoder and decoder,
//! executable code proved against them, and round-trip lemmas: decoding an
//! encoding always gives the original value back.

use vstd::prelude::*;
use crate::elements::error::Error;
use crate::elements::io::{Reader, lemma_reader_advance, lemma_remaining_len};
use crate::elements::traits::{Deserialize, Serialize, enc_list, lemma_enc_list_first, lemma_enc_list_take_succ};

verus! {

// ---------------------------------------------------------------------------
// Unsigned LEB128, 32 bits.
// ---------------------------------------------------------------------------

/// Canonical unsigned LEB128 encoding: seven low bits per byte, the high
/// bit marking continuation, minimal length.
pub open spec fn enc_leb_u32(v: u32) -> Seq<u8>
    decreases v via enc_leb_u32_decreases
{
    if v < 0x80 {
        seq![v as u8]
    } else {
        seq![((v & 0x7f) | 0x80) as u8] + enc_leb_u32(v >> 7)
    }
}

#[via_fn]
proof fn enc_leb_u32_decreases(v: u32) {
    assert(v >= 0x80 ==> v >> 7 < v) by (bit_vector);
}

/// Unsigned 32-bit LEB128 decoding with at most `max` bytes left to read:
/// the decoded value and the number of bytes consumed, or the exact error.
pub open spec fn dec_leb_u32(s: Seq<u8>, max: nat) -> Result<(u32, int), Error>
    decreases max,
{
    if max == 0 {
        Err(Error::InvalidVarInt32)
    } else if s.len() == 0 {
        Err(Error::UnexpectedEof)
    } else if s[0] < 0x80 {
        Ok((s[0] as u32, 1))
    } else {
        match dec_leb_u32(s.skip(1), (max - 1) as nat) {
            Ok((v, n)) => Ok((((s[0] & 0x7f) as u32) | (v << 7), n + 1)),
            Err(e) => Err(e),
        }
    }
}

/// An unsigned 32-bit LEB128 encoding takes one to five bytes.
pub proof fn lemma_enc_leb_u32_len(v: u32)
    ensures
        1 <= enc_leb_u32(v).len() <= 5,
{
    let v1 = v >> 7;
    let v2 = v1 >> 7;
    let v3 = v2 >> 7;
    let v4 = v3 >> 7;
    assert(((v >> 7) >> 7) >> 7 >> 7 < 0x80) by (bit_vector);
    assert(enc_leb_u32(v4).len() == 1);
    assert(enc_leb_u32(v3).len() <= 2);
    assert(enc_leb_u32(v2).len() <= 3);
    assert(enc_leb_u32(v1).len() <= 4);
    assert(enc_leb_u32(v).len() <= 5);
}

/// Decoding an unsigned 32-bit LEB128 encoding yields the original value,
/// whatever follows it.
pub proof fn lemma_leb_u32_round_trip(v: u32, rest: Seq<u8>, max: nat)
    requires
        enc_leb_u32(v).len() <= max,
    ensures
        dec_leb_u32(enc_leb_u32(v) + rest, max) == Ok::<(u32, int), Error>(
            (v, enc_leb_u32(v).len() as int),
        ),
    decreases v,
{
    let e = enc_leb_u32(v);
    let s = e + rest;
    if v < 0x80 {
        assert(s[0] == v as u8);
        assert(v < 0x80 ==> (v as u8) < 0x80 && (v as u8) as u32 == v) by (bit_vector);
    } else {
        let b = ((v & 0x7f) | 0x80) as u8;
        assert(s[0] == b);
        assert((((v & 0x7f) | 0x80) as u8) >= 0x80) by (bit_vector);
        assert(s.skip(1) =~= enc_leb_u32(v >> 7) + rest);
        assert(v >= 0x80 ==> v >> 7 < v) by (bit_vector);
        lemma_leb_u32_round_trip(v >> 7, rest, (max - 1) as nat);
        assert(((((((v & 0x7f) | 0x80) as u8) & 0x7f) as u32) | ((v >> 7) << 7)) == v)
            by (bit_vector);
    }
}

/// `bytes` is one unsigned 32-bit LEB128 representation of `v`, minimal
/// or padded, using the whole of `bytes`.
pub open spec fn leb_u32_encodes(bytes: Seq<u8>, v: u32) -> bool {
    dec_leb_u32(bytes, 5) == Ok::<(u32, int), Error>((v, bytes.len() as int))
}

/// `bytes` is a whole unsigned 32-bit LEB128 representation of some value.
pub open spec fn leb_u32_delimits(bytes: Seq<u8>) -> bool {
    dec_leb_u32(bytes, 5) matches Ok(p) && p.1 == bytes.len()
}

/// A decode that consumed a prefix exactly reads the same value when more
/// input follows.
pub proof fn lemma_dec_leb_u32_extend(p: Seq<u8>, s: Seq<u8>, v: u32, n: int, max: nat)
    requires
        dec_leb_u32(p, max) == Ok::<(u32, int), Error>((v, n)),
        n <= p.len(),
    ensures
        dec_leb_u32(p + s, max) == Ok::<(u32, int), Error>((v, n)),
    decreases max,
{
    assert(p.len() > 0);
    assert((p + s)[0] == p[0]);
    if p[0] < 0x80 {
    } else {
        match dec_leb_u32(p.skip(1), (max - 1) as nat) {
            Ok(q) => {
                assert((p + s).skip(1) =~= p.skip(1) + s);
                lemma_dec_leb_u32_extend(p.skip(1), s, q.0, q.1, (max - 1) as nat);
            },
            Err(_) => {
                assert(false);
            },
        }
    }
}

/// The minimal encoding is one of the representations.
pub proof fn lemma_enc_is_leb_u32_encoding(v: u32)
    ensures
        leb_u32_encodes(enc_leb_u32(v), v),
{
    lemma_enc_leb_u32_len(v);
    lemma_leb_u32_round_trip(v, Seq::empty(), 5);
    assert(enc_leb_u32(v) + Seq::<u8>::empty() =~= enc_leb_u32(v));
}

/// Read an unsigned 32-bit LEB128 value, with at most `max` bytes.
pub(crate) fn read_leb_u32(reader: &mut Reader, max: u8) -> (r: Result<u32, Error>)
    requires
        old(reader).wf(),
    ensures
        final(reader).wf(),
        final(reader).input() == old(reader).input(),
        final(reader).position() >= old(reader).position(),
        final(reader).position() <= old(reader).position() + max,
        r is Ok ==> final(reader).position() > old(reader).position(),
        match r {
            Ok(v) => dec_leb_u32(old(reader).remaining(), max as nat) == Ok::<(u32, int), Error>(
                (v, final(reader).position() - old(reader).position()),
            ),
            Err(e) => dec_leb_u32(old(reader).remaining(), max as nat) == Err::<(u32, int), Error>(
                e,
            ),
        },
    decreases max,
{
    if max == 0 {
        return Err(Error::InvalidVarInt32);
    }
    let b = match reader.read_u8() {
        Ok(b) => b,
        Err(e) => { return Err(e); },
    };
    if b < 0x80 {
        Ok(b as u32)
    } else {
        proof {
            assert(reader.remaining() =~= old(reader).remaining().skip(1));
        }
        match read_leb_u32(reader, max - 1) {
            Ok(v) => Ok(((b & 0x7f) as u32) | (v << 7)),
            Err(e) => Err(e),
        }
    }
}

/// Write the canonical unsigned 32-bit LEB128 encoding of `v`.
pub(crate) fn write_leb_u32(out: &mut Vec<u8>, v: u32)
    ensures
        final(out)@ == old(out)@ + enc_leb_u32(v),
    decreases v,
{
    proof {
        assert(v >= 0x80 ==> v >> 7 < v) by (bit_vector);
    }
    if v < 0x80 {
        out.push(v as u8);
        proof {
            assert(out@ =~= old(out)@ + enc_leb_u32(v));
        }
    } else {
        out.push(((v & 0x7f) | 0x80) as u8);
        write_leb_u32(out, v >> 7);
        proof {
            assert(out@ =~= old(out)@ + enc_leb_u32(v));
        }
    }
}

/// Unsigned 32-bit integer in variable-length LEB128, one to five bytes.
#[derive(Copy, Clone, Debug, PartialEq, Eq, Structural)]
pub struct VarUint32(pub u32);

impl Serialize for VarUint32 {
    open spec fn enc(&self) -> Seq<u8> {
        enc_leb_u32(self.0)
    }

    open spec fn enc_wf(&self) -> bool {
        true
    }

    fn serialize(&self, out: &mut Vec<u8>) {
        write_leb_u32(out, self.0);
    }
}

impl Deserialize for VarUint32 {
    fn deserialize(reader: &mut Reader) -> (r: Result<Self, Error>)
        ensures
            final(reader).position() <= old(reader).position() + 5,
            match r {
                Ok(v) => dec_leb_u32(old(reader).remaining(), 5) == Ok::<(u32, int), Error>(
                    (v.0, final(reader).position() - old(reader).position()),
                ),
                Err(e) => dec_leb_u32(old(reader).remaining(), 5) == Err::<(u32, int), Error>(e),
            },
    {
        let r = read_leb_u32(reader, 5);
        proof {
            assert forall|v: Self, rest: Seq<u8>|
                v.enc_wf() && old(reader).remaining() == #[trigger] (v.enc() + rest)
                    implies r == Ok::<u32, Error>(v.0) && reader.position() == old(
                reader,
            ).position() + v.enc().len() by {
                lemma_enc_leb_u32_len(v.0);
                lemma_leb_u32_round_trip(v.0, rest, 5);
            }
        }
        match r {
            Ok(v) => Ok(VarUint32(v)),
            Err(e) => Err(e),
        }
    }
}


// ---------------------------------------------------------------------------
// Unsigned LEB128, 64 bits.
// ---------------------------------------------------------------------------

/// Canonical unsigned 64-bit LEB128 encoding.
pub open spec fn enc_leb_u64(v: u64) -> Seq<u8>
    decreases v via enc_leb_u64_decreases
{
    if v < 0x80 {
        seq![v as u8]
    } else {
        seq![((v & 0x7f) | 0x80) as u8] + enc_leb_u64(v >> 7)
    }
}

#[via_fn]
proof fn enc_leb_u64_decreases(v: u64) {
    assert(v >= 0x80 ==> v >> 7 < v) by (bit_vector);
}

/// Unsigned 64-bit LEB128 decoding with at most `max` bytes left to read.
pub open spec fn dec_leb_u64(s: Seq<u8>, max: nat) -> Result<(u64, int), Error>
    decreases max,
{
    if max == 0 {
        Err(Error::InvalidVarInt64)
    } else if s.len() == 0 {
        Err(Error::UnexpectedEof)
    } else if s[0] < 0x80 {
        Ok((s[0] as u64, 1))
    } else {
        match dec_leb_u64(s.skip(1), (max - 1) as nat) {
            Ok((v, n)) => Ok((((s[0] & 0x7f) as u64) | (v << 7), n + 1)),
            Err(e) => Err(e),
        }
    }
}

/// An unsigned 64-bit LEB128 encoding takes one to ten bytes.
pub proof fn lemma_enc_leb_u64_len(v: u64)
    ensures
        1 <= enc_leb_u64(v).len() <= 10,
{
    let v1 = v >> 7;
    let v2 = v1 >> 7;
    let v3 = v2 >> 7;
    let v4 = v3 >> 7;
    let v5 = v4 >> 7;
    let v6 = v5 >> 7;
    let v7 = v6 >> 7;
    let v8 = v7 >> 7;
    let v9 = v8 >> 7;
    assert(((((((((v >> 7) >> 7) >> 7 >> 7) >> 7) >> 7) >> 7) >> 7) >> 7) < 0x80) by (bit_vector);
    assert(enc_leb_u64(v9).len() == 1);
    assert(enc_leb_u64(v8).len() <= 2);
    assert(enc_leb_u64(v7).len() <= 3);
    assert(enc_leb_u64(v6).len() <= 4);
    assert(enc_leb_u64(v5).len() <= 5);
    assert(enc_leb_u64(v4).len() <= 6);
    assert(enc_leb_u64(v3).len() <= 7);
    assert(enc_leb_u64(v2).len() <= 8);
    assert(enc_leb_u64(v1).len() <= 9);
    assert(enc_leb_u64(v).len() <= 10);
}

/// Decoding an unsigned 64-bit LEB128 encoding yields the original value.
pub proof fn lemma_leb_u64_round_trip(v: u64, rest: Seq<u8>, max: nat)
    requires
        enc_leb_u64(v).len() <= max,
    ensures
        dec_leb_u64(enc_leb_u64(v) + rest, max) == Ok::<(u64, int), Error>(
            (v, enc_leb_u64(v).len() as int),
        ),
    decreases v,
{
    let e = enc_leb_u64(v);
    let s = e + rest;
    if v < 0x80 {
        assert(s[0] == v as u8);
        assert(v < 0x80 ==> (v as u8) < 0x80 && (v as u8) as u64 == v) by (bit_vector);
    } else {
        assert(s[0] == ((v & 0x7f) | 0x80) as u8);
        assert((((v & 0x7f) | 0x80) as u8) >= 0x80) by (bit_vector);
        assert(s.skip(1) =~= enc_leb_u64(v >> 7) + rest);
        assert(v >= 0x80 ==> v >> 7 < v) by (bit_vector);
        lemma_leb_u64_round_trip(v >> 7, rest, (max - 1) as nat);
        assert(((((((v & 0x7f) | 0x80) as u8) & 0x7f) as u64) | ((v >> 7) << 7)) == v)
            by (bit_vector);
    }
}

/// Read an unsigned 64-bit LEB128 value, with at most `max` bytes.
pub(crate) fn read_leb_u64(reader: &mut Reader, max: u8) -> (r: Result<u64, Error>)
    requires
        old(reader).wf(),
    ensures
        final(reader).wf(),
        final(reader).input() == old(reader).input(),
        final(reader).position() >= old(reader).position(),
        final(reader).position() <= old(reader).position() + max,
        r is Ok ==> final(reader).position() > old(reader).position(),
        match r {
            Ok(v) => dec_leb_u64(old(reader).remaining(), max as nat) == Ok::<(u64, int), Error>(
                (v, final(reader).position() - old(reader).position()),
            ),
            Err(e) => dec_leb_u64(old(reader).remaining(), max as nat) == Err::<(u64, int), Error>(
                e,
            ),
        },
    decreases max,
{
    if max == 0 {
        return Err(Error::InvalidVarInt64);
    }
    let b = match reader.read_u8() {
        Ok(b) => b,
        Err(e) => { return Err(e); },
    };
    if b < 0x80 {
        Ok(b as u64)
    } else {
        proof {
            assert(reader.remaining() =~= old(reader).remaining().skip(1));
        }
        match read_leb_u64(reader, max - 1) {
            Ok(v) => Ok(((b & 0x7f) as u64) | (v << 7)),
            Err(e) => Err(e),
        }
    }
}

/// Write the canonical unsigned 64-bit LEB128 encoding of `v`.
pub(crate) fn write_leb_u64(out: &mut Vec<u8>, v: u64)
    ensures
        final(out)@ == old(out)@ + enc_leb_u64(v),
    decreases v,
{
    proof {
        assert(v >= 0x80 ==> v >> 7 < v) by (bit_vector);
    }
    if v < 0x80 {
        out.push(v as u8);
        proof {
            assert(out@ =~= old(out)@ + enc_leb_u64(v));
        }
    } else {
        out.push(((v & 0x7f) | 0x80) as u8);
        write_leb_u64(out, v >> 7);
        proof {
            assert(out@ =~= old(out)@ + enc_leb_u64(v));
        }
    }
}

// ---------------------------------------------------------------------------
// Signed LEB128, 32 bits.
// ---------------------------------------------------------------------------

/// Sign-extend the seven payload bits of a terminal LEB128 byte to 32 bits.
pub open spec fn sign_extend_7_32(b: u8) -> i32 {
    if b & 0x40 != 0 {
        ((((b & 0x7f) as u32) | 0xffff_ff80u32) as i32)
    } else {
        ((b & 0x7f) as i32)
    }
}

/// Canonical signed 32-bit LEB128 encoding: seven bits per byte, the final
/// byte carrying the sign in bit six.
pub open spec fn enc_leb_i32(v: i32) -> Seq<u8>
    decreases (if v >= 0 { v as int } else { -1 - v as int }) via enc_leb_i32_decreases
{
    if -64 <= v && v < 64 {
        seq![(v & 0x7f) as u8]
    } else {
        seq![((v & 0x7f) | 0x80) as u8] + enc_leb_i32(v >> 7)
    }
}

#[via_fn]
proof fn enc_leb_i32_decreases(v: i32) {
    assert(v >= 64 ==> 0 <= v >> 7 < v) by (bit_vector);
    assert(v < -64 ==> v < v >> 7 < 0) by (bit_vector);
}

/// Signed 32-bit LEB128 decoding with at most `max` bytes left to read.
pub open spec fn dec_leb_i32(s: Seq<u8>, max: nat) -> Result<(i32, int), Error>
    decreases max,
{
    if max == 0 {
        Err(Error::InvalidVarInt32)
    } else if s.len() == 0 {
        Err(Error::UnexpectedEof)
    } else if s[0] < 0x80 {
        Ok((sign_extend_7_32(s[0]), 1))
    } else {
        match dec_leb_i32(s.skip(1), (max - 1) as nat) {
            Ok((v, n)) => Ok(((((s[0] & 0x7f) as u32) | ((v as u32) << 7)) as i32, n + 1)),
            Err(e) => Err(e),
        }
    }
}

/// A signed 32-bit LEB128 encoding takes one to five bytes.
pub proof fn lemma_enc_leb_i32_len(v: i32)
    ensures
        1 <= enc_leb_i32(v).len() <= 5,
{
    let v1 = v >> 7;
    let v2 = v1 >> 7;
    let v3 = v2 >> 7;
    let v4 = v3 >> 7;
    assert(-64 <= ((((v >> 7) >> 7) >> 7) >> 7) < 64) by (bit_vector);
    assert(enc_leb_i32(v4).len() == 1);
    assert(enc_leb_i32(v3).len() <= 2);
    assert(enc_leb_i32(v2).len() <= 3);
    assert(enc_leb_i32(v1).len() <= 4);
    assert(enc_leb_i32(v).len() <= 5);
}

/// Decoding a signed 32-bit LEB128 encoding yields the original value.
pub proof fn lemma_leb_i32_round_trip(v: i32, rest: Seq<u8>, max: nat)
    requires
        enc_leb_i32(v).len() <= max,
    ensures
        dec_leb_i32(enc_leb_i32(v) + rest, max) == Ok::<(i32, int), Error>(
            (v, enc_leb_i32(v).len() as int),
        ),
    decreases (if v >= 0 { v as int } else { -1 - v as int }),
{
    let e = enc_leb_i32(v);
    let s = e + rest;
    if -64 <= v && v < 64 {
        assert(s[0] == (v & 0x7f) as u8);
        assert(-64 <= v && v < 64 ==> ((v & 0x7f) as u8) < 0x80) by (bit_vector);
        assert((-64 <= v && v < 64 && ((v & 0x7f) as u8) & 0x40 != 0) ==> (((((v & 0x7f) as u8)
            & 0x7f) as u32) | 0xffff_ff80u32) as i32 == v) by (bit_vector);
        assert((-64 <= v && v < 64 && ((v & 0x7f) as u8) & 0x40 == 0) ==> ((((v & 0x7f) as u8)
            & 0x7f) as i32) == v) by (bit_vector);
    } else {
        assert(s[0] == ((v & 0x7f) | 0x80) as u8);
        assert((((v & 0x7f) | 0x80) as u8) >= 0x80) by (bit_vector);
        assert(s.skip(1) =~= enc_leb_i32(v >> 7) + rest);
        assert(v >= 64 ==> 0 <= v >> 7 < v) by (bit_vector);
        assert(v < -64 ==> v < v >> 7 < 0) by (bit_vector);
        lemma_leb_i32_round_trip(v >> 7, rest, (max - 1) as nat);
        assert((((((((v & 0x7f) | 0x80) as u8) & 0x7f) as u32) | (((v >> 7) as u32) << 7)) as i32)
            == v) by (bit_vector);
    }
}

/// Read a signed 32-bit LEB128 value, with at most `max` bytes.
pub(crate) fn read_leb_i32(reader: &mut Reader, max: u8) -> (r: Result<i32, Error>)
    requires
        old(reader).wf(),
    ensures
        final(reader).wf(),
        final(reader).input() == old(reader).input(),
        final(reader).position() >= old(reader).position(),
        final(reader).position() <= old(reader).position() + max,
        r is Ok ==> final(reader).position() > old(reader).position(),
        match r {
            Ok(v) => dec_leb_i32(old(reader).remaining(), max as nat) == Ok::<(i32, int), Error>(
                (v, final(reader).position() - old(reader).position()),
            ),
            Err(e) => dec_leb_i32(old(reader).remaining(), max as nat) == Err::<(i32, int), Error>(
                e,
            ),
        },
    decreases max,
{
    if max == 0 {
        return Err(Error::InvalidVarInt32);
    }
    let b = match reader.read_u8() {
        Ok(b) => b,
        Err(e) => { return Err(e); },
    };
    if b < 0x80 {
        if b & 0x40 != 0 {
            Ok(((((b & 0x7f) as u32) | 0xffff_ff80u32) as i32))
        } else {
            Ok(((b & 0x7f) as i32))
        }
    } else {
        proof {
            assert(reader.remaining() =~= old(reader).remaining().skip(1));
        }
        match read_leb_i32(reader, max - 1) {
            Ok(v) => Ok(((((b & 0x7f) as u32) | ((v as u32) << 7)) as i32)),
            Err(e) => Err(e),
        }
    }
}

/// Write the canonical signed 32-bit LEB128 encoding of `v`.
pub(crate) fn write_leb_i32(out: &mut Vec<u8>, v: i32)
    ensures
        final(out)@ == old(out)@ + enc_leb_i32(v),
    decreases (if v >= 0 { v as int } else { -1 - v as int }),
{
    proof {
        assert(v >= 64 ==> 0 <= v >> 7 < v) by (bit_vector);
        assert(v < -64 ==> v < v >> 7 < 0) by (bit_vector);
    }
    if -64 <= v && v < 64 {
        out.push((v & 0x7f) as u8);
        proof {
            assert(out@ =~= old(out)@ + enc_leb_i32(v));
        }
    } else {
        out.push(((v & 0x7f) | 0x80) as u8);
        write_leb_i32(out, v >> 7);
        proof {
            assert(out@ =~= old(out)@ + enc_leb_i32(v));
        }
    }
}

// ---------------------------------------------------------------------------
// Signed LEB128, 64 bits.
// ---------------------------------------------------------------------------

/// Sign-extend the seven payload bits of a terminal LEB128 byte to 64 bits.
pub open spec fn sign_extend_7_64(b: u8) -> i64 {
    if b & 0x40 != 0 {
        ((((b & 0x7f) as u64) | 0xffff_ffff_ffff_ff80u64) as i64)
    } else {
        ((b & 0x7f) as i64)
    }
}

/// Canonical signed 64-bit LEB128 encoding.
pub open spec fn enc_leb_i64(v: i64) -> Seq<u8>
    decreases (if v >= 0 { v as int } else { -1 - v as int }) via enc_leb_i64_decreases
{
    if -64 <= v && v < 64 {
        seq![(v & 0x7f) as u8]
    } else {
        seq![((v & 0x7f) | 0x80) as u8] + enc_leb_i64(v >> 7)
    }
}

#[via_fn]
proof fn enc_leb_i64_decreases(v: i64) {
    assert(v >= 64 ==> 0 <= v >> 7 < v) by (bit_vector);
    assert(v < -64 ==> v < v >> 7 < 0) by (bit_vector);
}

/// Signed 64-bit LEB128 decoding with at most `max` bytes left to read.
pub open spec fn dec_leb_i64(s: Seq<u8>, max: nat) -> Result<(i64, int), Error>
    decreases max,
{
    if max == 0 {
        Err(Error::InvalidVarInt64)
    } else if s.len() == 0 {
        Err(Error::UnexpectedEof)
    } else if s[0] < 0x80 {
        Ok((sign_extend_7_64(s[0]), 1))
    } else {
        match dec_leb_i64(s.skip(1), (max - 1) as nat) {
            Ok((v, n)) => Ok(((((s[0] & 0x7f) as u64) | ((v as u64) << 7)) as i64, n + 1)),
            Err(e) => Err(e),
        }
    }
}

/// A signed 64-bit LEB128 encoding takes one to ten bytes.
pub proof fn lemma_enc_leb_i64_len(v: i64)
    ensures
        1 <= enc_leb_i64(v).len() <= 10,
{
    let v1 = v >> 7;
    let v2 = v1 >> 7;
    let v3 = v2 >> 7;
    let v4 = v3 >> 7;
    let v5 = v4 >> 7;
    let v6 = v5 >> 7;
    let v7 = v6 >> 7;
    let v8 = v7 >> 7;
    let v9 = v8 >> 7;
    assert(-64 <= (((((((((v >> 7) >> 7) >> 7 >> 7) >> 7) >> 7) >> 7) >> 7) >> 7)) < 64)
        by (bit_vector);
    assert(enc_leb_i64(v9).len() == 1);
    assert(enc_leb_i64(v8).len() <= 2);
    assert(enc_leb_i64(v7).len() <= 3);
    assert(enc_leb_i64(v6).len() <= 4);
    assert(enc_leb_i64(v5).len() <= 5);
    assert(enc_leb_i64(v4).len() <= 6);
    assert(enc_leb_i64(v3).len() <= 7);
    assert(enc_leb_i64(v2).len() <= 8);
    assert(enc_leb_i64(v1).len() <= 9);
    assert(enc_leb_i64(v).len() <= 10);
}

/// Decoding a signed 64-bit LEB128 encoding yields the original value.
pub proof fn lemma_leb_i64_round_trip(v: i64, rest: Seq<u8>, max: nat)
    requires
        enc_leb_i64(v).len() <= max,
    ensures
        dec_leb_i64(enc_leb_i64(v) + rest, max) == Ok::<(i64, int), Error>(
            (v, enc_leb_i64(v).len() as int),
        ),
    decreases (if v >= 0 { v as int } else { -1 - v as int }),
{
    let e = enc_leb_i64(v);
    let s = e + rest;
    if -64 <= v && v < 64 {
        assert(s[0] == (v & 0x7f) as u8);
        assert(-64 <= v && v < 64 ==> ((v & 0x7f) as u8) < 0x80) by (bit_vector);
        assert((-64 <= v && v < 64 && ((v & 0x7f) as u8) & 0x40 != 0) ==> (((((v & 0x7f) as u8)
            & 0x7f) as u64) | 0xffff_ffff_ffff_ff80u64) as i64 == v) by (bit_vector);
        assert((-64 <= v && v < 64 && ((v & 0x7f) as u8) & 0x40 == 0) ==> ((((v & 0x7f) as u8)
            & 0x7f) as i64) == v) by (bit_vector);
    } else {
        assert(s[0] == ((v & 0x7f) | 0x80) as u8);
        assert((((v & 0x7f) | 0x80) as u8) >= 0x80) by (bit_vector);
        assert(s.skip(1) =~= enc_leb_i64(v >> 7) + rest);
        assert(v >= 64 ==> 0 <= v >> 7 < v) by (bit_vector);
        assert(v < -64 ==> v < v >> 7 < 0) by (bit_vector);
        lemma_leb_i64_round_trip(v >> 7, rest, (max - 1) as nat);
        assert((((((((v & 0x7f) | 0x80) as u8) & 0x7f) as u64) | (((v >> 7) as u64) << 7)) as i64)
            == v) by (bit_vector);
    }
}

/// Read a signed 64-bit LEB128 value, with at most `max` bytes.
pub(crate) fn read_leb_i64(reader: &mut Reader, max: u8) -> (r: Result<i64, Error>)
    requires
        old(reader).wf(),
    ensures
        final(reader).wf(),
        final(reader).input() == old(reader).input(),
        final(reader).position() >= old(reader).position(),
        final(reader).position() <= old(reader).position() + max,
        r is Ok ==> final(reader).position() > old(reader).position(),
        match r {
            Ok(v) => dec_leb_i64(old(reader).remaining(), max as nat) == Ok::<(i64, int), Error>(
                (v, final(reader).position() - old(reader).position()),
            ),
            Err(e) => dec_leb_i64(old(reader).remaining(), max as nat) == Err::<(i64, int), Error>(
                e,
            ),
        },
    decreases max,
{
    if max == 0 {
        return Err(Error::InvalidVarInt64);
    }
    let b = match reader.read_u8() {
        Ok(b) => b,
        Err(e) => { return Err(e); },
    };
    if b < 0x80 {
        if b & 0x40 != 0 {
            Ok(((((b & 0x7f) as u64) | 0xffff_ffff_ffff_ff80u64) as i64))
        } else {
            Ok(((b & 0x7f) as i64))
        }
    } else {
        proof {
            assert(reader.remaining() =~= old(reader).remaining().skip(1));
        }
        match read_leb_i64(reader, max - 1) {
            Ok(v) => Ok(((((b & 0x7f) as u64) | ((v as u64) << 7)) as i64)),
            Err(e) => Err(e),
        }
    }
}

/// Write the canonical signed 64-bit LEB128 encoding of `v`.
pub(crate) fn write_leb_i64(out: &mut Vec<u8>, v: i64)
    ensures
        final(out)@ == old(out)@ + enc_leb_i64(v),
    decreases (if v >= 0 { v as int } else { -1 - v as int }),
{
    proof {
        assert(v >= 64 ==> 0 <= v >> 7 < v) by (bit_vector);
        assert(v < -64 ==> v < v >> 7 < 0) by (bit_vector);
    }
    if -64 <= v && v < 64 {
        out.push((v & 0x7f) as u8);
        proof {
            assert(out@ =~= old(out)@ + enc_leb_i64(v));
        }
    } else {
        out.push(((v & 0x7f) | 0x80) as u8);
        write_leb_i64(out, v >> 7);
        proof {
            assert(out@ =~= old(out)@ + enc_leb_i64(v));
        }
    }
}


// ---------------------------------------------------------------------------
// Primitive wrapper types.
// ---------------------------------------------------------------------------

/// Unsigned 64-bit integer in variable-length LEB128, one to ten bytes.
#[derive(Copy, Clone, Debug, PartialEq, Eq, Structural)]
pub struct VarUint64(pub u64);

impl Serialize for VarUint64 {
    open spec fn enc(&self) -> Seq<u8> {
        enc_leb_u64(self.0)
    }

    open spec fn enc_wf(&self) -> bool {
        true
    }

    fn serialize(&self, out: &mut Vec<u8>) {
        write_leb_u64(out, self.0);
    }
}

impl Deserialize for VarUint64 {
    fn deserialize(reader: &mut Reader) -> (r: Result<Self, Error>)
        ensures
            final(reader).position() <= old(reader).position() + 10,
            match r {
                Ok(v) => dec_leb_u64(old(reader).remaining(), 10) == Ok::<(u64, int), Error>(
                    (v.0, final(reader).position() - old(reader).position()),
                ),
                Err(e) => dec_leb_u64(old(reader).remaining(), 10) == Err::<(u64, int), Error>(e),
            },
    {
        let r = read_leb_u64(reader, 10);
        proof {
            assert forall|v: Self, rest: Seq<u8>|
                v.enc_wf() && old(reader).remaining() == #[trigger] (v.enc() + rest)
                    implies r == Ok::<u64, Error>(v.0) && reader.position() == old(
                reader,
            ).position() + v.enc().len() by {
                lemma_enc_leb_u64_len(v.0);
                lemma_leb_u64_round_trip(v.0, rest, 10);
            }
        }
        match r {
            Ok(v) => Ok(VarUint64(v)),
            Err(e) => Err(e),
        }
    }
}

/// Signed 32-bit integer in variable-length LEB128, one to five bytes.
#[derive(Copy, Clone, Debug, PartialEq, Eq, Structural)]
pub struct VarInt32(pub i32);

impl Serialize for VarInt32 {
    open spec fn enc(&self) -> Seq<u8> {
        enc_leb_i32(self.0)
    }

    open spec fn enc_wf(&self) -> bool {
        true
    }

    fn serialize(&self, out: &mut Vec<u8>) {
        write_leb_i32(out, self.0);
    }
}

impl Deserialize for VarInt32 {
    fn deserialize(reader: &mut Reader) -> (r: Result<Self, Error>)
        ensures
            final(reader).position() <= old(reader).position() + 5,
            match r {
                Ok(v) => dec_leb_i32(old(reader).remaining(), 5) == Ok::<(i32, int), Error>(
                    (v.0, final(reader).position() - old(reader).position()),
                ),
                Err(e) => dec_leb_i32(old(reader).remaining(), 5) == Err::<(i32, int), Error>(e),
            },
    {
        let r = read_leb_i32(reader, 5);
        proof {
            assert forall|v: Self, rest: Seq<u8>|
                v.enc_wf() && old(reader).remaining() == #[trigger] (v.enc() + rest)
                    implies r == Ok::<i32, Error>(v.0) && reader.position() == old(
                reader,
            ).position() + v.enc().len() by {
                lemma_enc_leb_i32_len(v.0);
                lemma_leb_i32_round_trip(v.0, rest, 5);
            }
        }
        match r {
            Ok(v) => Ok(VarInt32(v)),
            Err(e) => Err(e),
        }
    }
}

/// Signed 64-bit integer in variable-length LEB128, one to ten bytes.
#[derive(Copy, Clone, Debug, PartialEq, Eq, Structural)]
pub struct VarInt64(pub i64);

impl Serialize for VarInt64 {
    open spec fn enc(&self) -> Seq<u8> {
        enc_leb_i64(self.0)
    }

    open spec fn enc_wf(&self) -> bool {
        true
    }

    fn serialize(&self, out: &mut Vec<u8>) {
        write_leb_i64(out, self.0);
    }
}

impl Deserialize for VarInt64 {
    fn deserialize(reader: &mut Reader) -> (r: Result<Self, Error>)
        ensures
            final(reader).position() <= old(reader).position() + 10,
            match r {
                Ok(v) => dec_leb_i64(old(reader).remaining(), 10) == Ok::<(i64, int), Error>(
                    (v.0, final(reader).position() - old(reader).position()),
                ),
                Err(e) => dec_leb_i64(old(reader).remaining(), 10) == Err::<(i64, int), Error>(e),
            },
    {
        let r = read_leb_i64(reader, 10);
        proof {
            assert forall|v: Self, rest: Seq<u8>|
                v.enc_wf() && old(reader).remaining() == #[trigger] (v.enc() + rest)
                    implies r == Ok::<i64, Error>(v.0) && reader.position() == old(
                reader,
            ).position() + v.enc().len() by {
                lemma_enc_leb_i64_len(v.0);
                lemma_leb_i64_round_trip(v.0, rest, 10);
            }
        }
        match r {
            Ok(v) => Ok(VarInt64(v)),
            Err(e) => Err(e),
        }
    }
}

/// 7-bit unsigned integer, always one byte on the wire.
#[derive(Copy, Clone, Debug, PartialEq, Eq, Structural)]
pub struct VarUint7(pub u8);

/// Decoding of a single raw byte.
pub open spec fn dec_byte(s: Seq<u8>) -> Result<(u8, int), Error> {
    if s.len() == 0 {
        Err(Error::UnexpectedEof)
    } else {
        Ok((s[0], 1))
    }
}

impl Serialize for VarUint7 {
    open spec fn enc(&self) -> Seq<u8> {
        seq![self.0]
    }

    open spec fn enc_wf(&self) -> bool {
        true
    }

    fn serialize(&self, out: &mut Vec<u8>) {
        out.push(self.0);
        proof {
            assert(out@ =~= old(out)@ + self.enc());
        }
    }
}

impl Deserialize for VarUint7 {
    fn deserialize(reader: &mut Reader) -> (r: Result<Self, Error>)
        ensures
            match r {
                Ok(v) => dec_byte(old(reader).remaining()) == Ok::<(u8, int), Error>(
                    (v.0, final(reader).position() - old(reader).position()),
                ),
                Err(e) => dec_byte(old(reader).remaining()) == Err::<(u8, int), Error>(e)
                    && final(reader).position() == old(reader).position(),
            },
    {
        let r = reader.read_u8();
        proof {
            assert forall|v: Self, rest: Seq<u8>|
                v.enc_wf() && old(reader).remaining() == #[trigger] (v.enc() + rest)
                    implies r == Ok::<u8, Error>(v.0) && reader.position() == old(
                reader,
            ).position() + v.enc().len() by {
                assert(old(reader).remaining()[0] == v.0);
            }
        }
        match r {
            Ok(b) => Ok(VarUint7(b)),
            Err(e) => Err(e),
        }
    }
}

/// The byte that carries a 7-bit signed value.
pub open spec fn vi7_to_byte(v: i8) -> u8 {
    if v < 0 {
        (((v as u8) | 0x40) & 0x7f)
    } else {
        (v as u8)
    }
}

/// The 7-bit signed value a byte carries, bit six deciding the sign.
pub open spec fn vi7_of_byte(b: u8) -> i8 {
    if b & 0x40 != 0 {
        ((b | 0x80) as i8)
    } else {
        (b as i8)
    }
}

/// 7-bit signed integer, always one byte on the wire.
#[derive(Copy, Clone, Debug, PartialEq, Eq, Structural)]
pub struct VarInt7(pub i8);

/// A seven-bit value survives the encoding into one byte and back.
pub proof fn lemma_vi7_round_trip(v: i8)
    requires
        -64 <= v < 64,
    ensures
        vi7_of_byte(vi7_to_byte(v)) == v,
{
    assert((-64 <= v && v < 0) ==> ((((v as u8) | 0x40) & 0x7f) & 0x40) != 0) by (bit_vector);
    assert((-64 <= v && v < 0) ==> (((((v as u8) | 0x40) & 0x7f) | 0x80) as i8) == v)
        by (bit_vector);
    assert((0 <= v && v < 64) ==> ((v as u8) & 0x40) == 0 && ((v as u8) as i8) == v)
        by (bit_vector);
}

impl Serialize for VarInt7 {
    open spec fn enc(&self) -> Seq<u8> {
        seq![vi7_to_byte(self.0)]
    }

    open spec fn enc_wf(&self) -> bool {
        -64 <= self.0 < 64
    }

    fn serialize(&self, out: &mut Vec<u8>) {
        let v = self.0;
        let b: u8 = if v < 0 {
            ((v as u8) | 0x40) & 0x7f
        } else {
            v as u8
        };
        out.push(b);
        proof {
            assert(out@ =~= old(out)@ + self.enc());
        }
    }
}

impl Deserialize for VarInt7 {
    fn deserialize(reader: &mut Reader) -> (r: Result<Self, Error>)
        ensures
            match r {
                Ok(v) => old(reader).remaining().len() > 0 && v.0 == vi7_of_byte(
                    old(reader).remaining()[0],
                ) && final(reader).position() == old(reader).position() + 1,
                Err(e) => e == Error::UnexpectedEof && old(reader).remaining().len() == 0
                    && final(reader).position() == old(reader).position(),
            },
    {
        let b = match reader.read_u8() {
            Ok(b) => b,
            Err(e) => { return Err(e); },
        };
        let v: i8 = if b & 0x40 != 0 {
            (b | 0x80) as i8
        } else {
            b as i8
        };
        proof {
            assert forall|w: Self, rest: Seq<u8>|
                w.enc_wf() && old(reader).remaining() == #[trigger] (w.enc() + rest)
                    implies VarInt7(v) == w by {
                assert(b == vi7_to_byte(w.0));
                lemma_vi7_round_trip(w.0);
            }
        }
        Ok(VarInt7(v))
    }
}

/// 32-bit unsigned integer, four little-endian bytes on the wire.
#[derive(Copy, Clone, Debug, PartialEq, Eq, Structural)]
pub struct Uint32(pub u32);

impl Serialize for Uint32 {
    open spec fn enc(&self) -> Seq<u8> {
        vstd::bytes::spec_u32_to_le_bytes(self.0)
    }

    open spec fn enc_wf(&self) -> bool {
        true
    }

    fn serialize(&self, out: &mut Vec<u8>) {
        let bytes = vstd::bytes::u32_to_le_bytes(self.0);
        crate::elements::io::write_bytes(out, bytes.as_slice());
    }
}

impl Deserialize for Uint32 {
    fn deserialize(reader: &mut Reader) -> (r: Result<Self, Error>)
        ensures
            match r {
                Ok(v) => old(reader).remaining().len() >= 4 && v.0
                    == vstd::bytes::spec_u32_from_le_bytes(old(reader).remaining().take(4))
                    && final(reader).position() == old(reader).position() + 4,
                Err(e) => e == Error::UnexpectedEof && old(reader).remaining().len() < 4
                    && final(reader).position() == old(reader).position(),
            },
    {
        let bytes = match reader.read_bytes(4) {
            Ok(b) => b,
            Err(e) => {
                proof {
                    vstd::bytes::lemma_auto_spec_u32_to_from_le_bytes();
                }
                return Err(e);
            },
        };
        let v = vstd::bytes::u32_from_le_bytes(bytes.as_slice());
        proof {
            vstd::bytes::lemma_auto_spec_u32_to_from_le_bytes();
            assert forall|w: Self, rest: Seq<u8>|
                w.enc_wf() && old(reader).remaining() == #[trigger] (w.enc() + rest)
                    implies Uint32(v) == w by {
                assert(bytes@ =~= w.enc());
            }
        }
        Ok(Uint32(v))
    }
}

/// 64-bit unsigned integer, eight little-endian bytes on the wire.
#[derive(Copy, Clone, Debug, PartialEq, Eq, Structural)]
pub struct Uint64(pub u64);

impl Serialize for Uint64 {
    open spec fn enc(&self) -> Seq<u8> {
        vstd::bytes::spec_u64_to_le_bytes(self.0)
    }

    open spec fn enc_wf(&self) -> bool {
        true
    }

    fn serialize(&self, out: &mut Vec<u8>) {
        let bytes = vstd::bytes::u64_to_le_bytes(self.0);
        crate::elements::io::write_bytes(out, bytes.as_slice());
    }
}

impl Deserialize for Uint64 {
    fn deserialize(reader: &mut Reader) -> (r: Result<Self, Error>)
        ensures
            match r {
                Ok(v) => old(reader).remaining().len() >= 8 && v.0
                    == vstd::bytes::spec_u64_from_le_bytes(old(reader).remaining().take(8))
                    && final(reader).position() == old(reader).position() + 8,
                Err(e) => e == Error::UnexpectedEof && old(reader).remaining().len() < 8
                    && final(reader).position() == old(reader).position(),
            },
    {
        let bytes = match reader.read_bytes(8) {
            Ok(b) => b,
            Err(e) => {
                proof {
                    vstd::bytes::lemma_auto_spec_u64_to_from_le_bytes();
                }
                return Err(e);
            },
        };
        let v = vstd::bytes::u64_from_le_bytes(bytes.as_slice());
        proof {
            vstd::bytes::lemma_auto_spec_u64_to_from_le_bytes();
            assert forall|w: Self, rest: Seq<u8>|
                w.enc_wf() && old(reader).remaining() == #[trigger] (w.enc() + rest)
                    implies Uint64(v) == w by {
                assert(bytes@ =~= w.enc());
            }
        }
        Ok(Uint64(v))
    }
}

/// One-bit boolean flag, a single byte holding 0 or 1.
#[derive(Copy, Clone, Debug, PartialEq, Eq, Structural)]
pub struct VarUint1(pub bool);

/// Decoding of a one-bit flag: only the bytes 0 and 1 are accepted.
pub open spec fn dec_varuint1(s: Seq<u8>) -> Result<(bool, int), Error> {
    if s.len() == 0 {
        Err(Error::UnexpectedEof)
    } else if s[0] == 0 {
        Ok((false, 1))
    } else if s[0] == 1 {
        Ok((true, 1))
    } else {
        Err(Error::InvalidVarUint1(s[0]))
    }
}

impl Serialize for VarUint1 {
    open spec fn enc(&self) -> Seq<u8> {
        seq![if self.0 { 1u8 } else { 0u8 }]
    }

    open spec fn enc_wf(&self) -> bool {
        true
    }

    fn serialize(&self, out: &mut Vec<u8>) {
        out.push(if self.0 { 1u8 } else { 0u8 });
        proof {
            assert(out@ =~= old(out)@ + self.enc());
        }
    }
}

impl Deserialize for VarUint1 {
    fn deserialize(reader: &mut Reader) -> (r: Result<Self, Error>)
        ensures
            match r {
                Ok(v) => dec_varuint1(old(reader).remaining()) == Ok::<(bool, int), Error>(
                    (v.0, final(reader).position() - old(reader).position()),
                ),
                Err(e) => dec_varuint1(old(reader).remaining()) == Err::<(bool, int), Error>(
                    e,
                ) && final(reader).position() == old(reader).position() + (
                if e is UnexpectedEof {
                    0int
                } else {
                    1int
                }),
            },
    {
        let b = match reader.read_u8() {
            Ok(b) => b,
            Err(e) => { return Err(e); },
        };
        let r: Result<Self, Error> = match b {
            0 => Ok(VarUint1(false)),
            1 => Ok(VarUint1(true)),
            _ => Err(Error::InvalidVarUint1(b)),
        };
        proof {
            assert forall|v: Self, rest: Seq<u8>|
                v.enc_wf() && old(reader).remaining() == #[trigger] (v.enc() + rest)
                    implies r is Ok && r->Ok_0 == v && reader.position() == old(reader).position()
                + v.enc().len() by {
                assert(b == v.enc()[0]);
            }
        }
        r
    }
}


// ---------------------------------------------------------------------------
// Length-prefixed UTF-8 strings.
// ---------------------------------------------------------------------------

/// Length-prefixed UTF-8 encoding of a character sequence.
pub open spec fn enc_str(s: Seq<char>) -> Seq<u8> {
    enc_leb_u32(vstd::utf8::encode_utf8(s).len() as u32) + vstd::utf8::encode_utf8(s)
}

/// Relies on `String::from_utf8`: it succeeds exactly on valid UTF-8 input
/// and yields the characters those bytes encode, per the UTF-8 model in
/// `vstd::utf8`.
#[verifier::external_body]
fn vec_to_string(bytes: Vec<u8>) -> (r: Result<String, Error>)
    ensures
        match r {
            Ok(s) => vstd::utf8::valid_utf8(bytes@) && s@ == vstd::utf8::decode_utf8(bytes@),
            Err(e) => !vstd::utf8::valid_utf8(bytes@) && e == Error::NonUtf8String,
        },
{
    match String::from_utf8(bytes) {
        Ok(s) => Ok(s),
        Err(_) => Err(Error::NonUtf8String),
    }
}

impl Serialize for String {
    open spec fn enc(&self) -> Seq<u8> {
        enc_str(self@)
    }

    open spec fn deq(&self, other: &Self) -> bool {
        self@ == other@
    }

    open spec fn enc_wf(&self) -> bool {
        vstd::utf8::encode_utf8(self@).len() <= u32::MAX
    }

    fn serialize(&self, out: &mut Vec<u8>) {
        let bytes: &[u8] = self.as_str().as_bytes();
        write_leb_u32(out, bytes.len() as u32);
        crate::elements::io::write_bytes(out, bytes);
        proof {
            assert(final(out)@ =~= old(out)@ + self.enc());
        }
    }
}

impl Deserialize for String {
    fn deserialize(reader: &mut Reader) -> (r: Result<Self, Error>)
        ensures
            forall|v: String, len_pre: Seq<u8>, rest: Seq<u8>|
                v.enc_wf() && leb_u32_encodes(
                    len_pre,
                    vstd::utf8::encode_utf8(v@).len() as u32,
                ) && old(reader).remaining() == #[trigger] (len_pre + (vstd::utf8::encode_utf8(v@)
                    + rest)) ==> r is Ok && r->Ok_0@ == v@ && final(reader).position() == old(
                    reader,
                ).position() + len_pre.len() + vstd::utf8::encode_utf8(v@).len(),
    {
        let n = match read_leb_u32(reader, 5) {
            Ok(n) => n,
            Err(e) => {
                proof {
                    assert forall|v: Self, rest: Seq<u8>|
                        v.enc_wf() && old(reader).remaining() == #[trigger] (v.enc() + rest)
                            implies false by {
                        let bytes = vstd::utf8::encode_utf8(v@);
                        lemma_enc_leb_u32_len(bytes.len() as u32);
                        lemma_leb_u32_round_trip(bytes.len() as u32, bytes + rest, 5);
                        assert(v.enc() + rest =~= enc_leb_u32(bytes.len() as u32) + (bytes + rest));
                    }
                    assert forall|v: String, len_pre: Seq<u8>, rest: Seq<u8>|
                        v.enc_wf() && leb_u32_encodes(
                            len_pre,
                            vstd::utf8::encode_utf8(v@).len() as u32,
                        ) && old(reader).remaining() == #[trigger] (len_pre + (
                        vstd::utf8::encode_utf8(v@) + rest)) implies false by {
                        lemma_dec_leb_u32_extend(
                            len_pre,
                            vstd::utf8::encode_utf8(v@) + rest,
                            vstd::utf8::encode_utf8(v@).len() as u32,
                            len_pre.len() as int,
                            5,
                        );
                    }
                }
                return Err(e);
            },
        };
        let ghost mid = *reader;
        let bytes = match reader.read_bytes(n as usize) {
            Ok(b) => b,
            Err(e) => {
                proof {
                    assert forall|v: Self, rest: Seq<u8>|
                        v.enc_wf() && old(reader).remaining() == #[trigger] (v.enc() + rest)
                            implies false by {
                        let ebytes = vstd::utf8::encode_utf8(v@);
                        lemma_enc_leb_u32_len(ebytes.len() as u32);
                        lemma_leb_u32_round_trip(ebytes.len() as u32, ebytes + rest, 5);
                        assert(v.enc() + rest =~= enc_leb_u32(ebytes.len() as u32) + (ebytes
                            + rest));
                        assert(n == ebytes.len());
                        lemma_reader_advance(
                            *old(reader),
                            mid,
                            enc_leb_u32(ebytes.len() as u32),
                            ebytes + rest,
                        );
                    }
                    assert forall|v: String, len_pre: Seq<u8>, rest: Seq<u8>|
                        v.enc_wf() && leb_u32_encodes(
                            len_pre,
                            vstd::utf8::encode_utf8(v@).len() as u32,
                        ) && old(reader).remaining() == #[trigger] (len_pre + (
                        vstd::utf8::encode_utf8(v@) + rest)) implies false by {
                        let ebytes = vstd::utf8::encode_utf8(v@);
                        lemma_dec_leb_u32_extend(
                            len_pre,
                            ebytes + rest,
                            ebytes.len() as u32,
                            len_pre.len() as int,
                            5,
                        );
                        lemma_reader_advance(*old(reader), mid, len_pre, ebytes + rest);
                    }
                }
                return Err(e);
            },
        };
        let ghost after = *reader;
        let r = vec_to_string(bytes);
        proof {
            broadcast use vstd::utf8::encode_utf8_valid_utf8;
            broadcast use vstd::utf8::encode_utf8_decode_utf8;

            assert forall|v: Self, rest: Seq<u8>|
                v.enc_wf() && old(reader).remaining() == #[trigger] (v.enc() + rest)
                    implies r is Ok && r->Ok_0.deq(&v) && reader.position() == old(
                reader,
            ).position() + v.enc().len() by {
                let ebytes = vstd::utf8::encode_utf8(v@);
                lemma_enc_leb_u32_len(ebytes.len() as u32);
                lemma_leb_u32_round_trip(ebytes.len() as u32, ebytes + rest, 5);
                assert(v.enc() + rest =~= enc_leb_u32(ebytes.len() as u32) + (ebytes + rest));
                assert(n == ebytes.len());
                lemma_reader_advance(
                    *old(reader),
                    mid,
                    enc_leb_u32(ebytes.len() as u32),
                    ebytes + rest,
                );
                assert(bytes@ =~= ebytes);
            }
            assert forall|v: String, len_pre: Seq<u8>, rest: Seq<u8>|
                v.enc_wf() && leb_u32_encodes(
                    len_pre,
                    vstd::utf8::encode_utf8(v@).len() as u32,
                ) && old(reader).remaining() == #[trigger] (len_pre + (vstd::utf8::encode_utf8(v@)
                    + rest)) implies r is Ok && r->Ok_0@ == v@ && reader.position() == old(
                reader,
            ).position() + len_pre.len() + vstd::utf8::encode_utf8(v@).len() by {
                let ebytes = vstd::utf8::encode_utf8(v@);
                lemma_dec_leb_u32_extend(
                    len_pre,
                    ebytes + rest,
                    ebytes.len() as u32,
                    len_pre.len() as int,
                    5,
                );
                lemma_reader_advance(*old(reader), mid, len_pre, ebytes + rest);
                assert(bytes@ =~= ebytes);
            }
        }
        match r {
            Ok(s) => Ok(s),
            Err(e) => Err(e),
        }
    }
}

// ---------------------------------------------------------------------------
// Counted lists: a length prefix followed by that many elements.
// ---------------------------------------------------------------------------

/// Encoding of a counted list: element count, then each element in order.
pub open spec fn enc_counted_list<T: Serialize>(items: Seq<T>) -> Seq<u8> {
    enc_leb_u32(items.len() as u32) + crate::elements::traits::enc_list(items)
}

/// A counted list is encodable when its length fits the count prefix and
/// every element is well formed.
pub open spec fn counted_list_wf<T: Serialize>(items: Seq<T>) -> bool {
    items.len() <= u32::MAX && crate::elements::traits::list_wf(items)
}

/// Element-wise representation equality of two sequences.
pub open spec fn list_deq<T: Serialize>(got: Seq<T>, want: Seq<T>) -> bool {
    got.len() == want.len() && (forall|i: int|
        0 <= i < want.len() ==> (#[trigger] got[i]).deq(&want[i]))
}

/// Serialize `items` as a counted list.
pub fn serialize_counted_list<T: Serialize>(items: &Vec<T>, out: &mut Vec<u8>)
    requires
        counted_list_wf(items@),
    ensures
        final(out)@ == old(out)@ + enc_counted_list(items@),
{
    write_leb_u32(out, items.len() as u32);
    let n = items.len();
    let mut i: usize = 0;
    proof {
        assert(enc_list(items@.take(0int)) =~= Seq::<u8>::empty());
        assert(out@ =~= old(out)@ + enc_leb_u32(items@.len() as u32) + enc_list(
            items@.take(0int),
        ));
    }
    while i < n
        invariant
            i <= n,
            n == items@.len(),
            counted_list_wf(items@),
            out@ == old(out)@ + enc_leb_u32(items@.len() as u32) + enc_list(
                items@.take(i as int),
            ),
        decreases n - i,
    {
        let item = &items[i];
        item.serialize(out);
        proof {
            lemma_enc_list_take_succ(items@, i as int);
            assert(out@ =~= old(out)@ + enc_leb_u32(items@.len() as u32) + enc_list(
                items@.take(i + 1int),
            ));
        }
        i = i + 1;
    }
    proof {
        assert(items@.take(n as int) =~= items@);
        assert(final(out)@ =~= old(out)@ + enc_counted_list(items@));
    }
}

/// Deserialize a counted list: on any encoded input — the count prefix
/// minimal or padded — the result is the encoded sequence itself, element
/// for element.
pub fn deserialize_counted_list<T: Deserialize>(reader: &mut Reader) -> (r: Result<
    Vec<T>,
    Error,
>)
    requires
        old(reader).wf(),
    ensures
        final(reader).wf(),
        final(reader).input() == old(reader).input(),
        final(reader).position() >= old(reader).position(),
        r is Ok ==> final(reader).position() > old(reader).position(),
        forall|items: Seq<T>, pre_cnt: Seq<u8>, rest: Seq<u8>|
            counted_list_wf(items) && leb_u32_encodes(pre_cnt, items.len() as u32) && old(
                reader,
            ).remaining() == #[trigger] (pre_cnt + (enc_list(items) + rest)) ==> r is Ok
                && list_deq(r->Ok_0@, items) && final(reader).position() == old(reader).position()
                + pre_cnt.len() + enc_list(items).len(),
        forall|items: Seq<T>, rest: Seq<u8>|
            counted_list_wf(items) && old(reader).remaining() == #[trigger] (enc_counted_list(
                items,
            ) + rest) ==> r is Ok && list_deq(r->Ok_0@, items) && final(reader).position() == old(
                reader,
            ).position() + enc_counted_list(items).len(),
{
    let count = match read_leb_u32(reader, 5) {
        Ok(c) => c,
        Err(e) => {
            proof {
                assert forall|items: Seq<T>, pre_cnt: Seq<u8>, rest: Seq<u8>|
                    counted_list_wf(items) && leb_u32_encodes(pre_cnt, items.len() as u32) && old(
                        reader,
                    ).remaining() == #[trigger] (pre_cnt + (enc_list(items) + rest))
                        implies false by {
                    lemma_dec_leb_u32_extend(
                        pre_cnt,
                        enc_list(items) + rest,
                        items.len() as u32,
                        pre_cnt.len() as int,
                        5,
                    );
                }
                assert forall|items: Seq<T>, rest: Seq<u8>|
                    counted_list_wf(items) && old(reader).remaining() == #[trigger] (
                    enc_counted_list(items) + rest) implies false by {
                    lemma_enc_is_leb_u32_encoding(items.len() as u32);
                    assert(enc_counted_list(items) + rest =~= enc_leb_u32(items.len() as u32) + (
                    enc_list(items) + rest));
                }
            }
            return Err(e);
        },
    };
    let ghost mid = *reader;
    proof {
        assert forall|items: Seq<T>, pre_cnt: Seq<u8>, rest: Seq<u8>|
            counted_list_wf(items) && leb_u32_encodes(pre_cnt, items.len() as u32) && old(
                reader,
            ).remaining() == #[trigger] (pre_cnt + (enc_list(items) + rest)) implies count
            == items.len() && mid.remaining() == enc_list(items) + rest && mid.position() == old(
            reader,
        ).position() + pre_cnt.len() by {
            lemma_dec_leb_u32_extend(
                pre_cnt,
                enc_list(items) + rest,
                items.len() as u32,
                pre_cnt.len() as int,
                5,
            );
            lemma_reader_advance(*old(reader), mid, pre_cnt, enc_list(items) + rest);
        }
    }
    let mut out: Vec<T> = Vec::new();
    let mut i: u32 = 0;
    proof {
        assert forall|items: Seq<T>, pre_cnt: Seq<u8>, rest: Seq<u8>|
            counted_list_wf(items) && leb_u32_encodes(pre_cnt, items.len() as u32) && old(
                reader,
            ).remaining() == #[trigger] (pre_cnt + (enc_list(items) + rest))
            implies reader.remaining() == enc_list(items.skip(0int)) + rest by {
            assert(items.skip(0int) =~= items);
        }
    }
    while i < count
        invariant
            i <= count,
            out@.len() == i,
            reader.wf(),
            reader.input() == old(reader).input(),
            reader.position() >= mid.position() > old(reader).position(),
            forall|items: Seq<T>, pre_cnt: Seq<u8>, rest: Seq<u8>|
                counted_list_wf(items) && leb_u32_encodes(pre_cnt, items.len() as u32) && old(
                    reader,
                ).remaining() == #[trigger] (pre_cnt + (enc_list(items) + rest)) ==> {
                    &&& items.len() == count
                    &&& mid.position() == old(reader).position() + pre_cnt.len()
                    &&& list_deq(out@, items.take(i as int))
                    &&& reader.remaining() == enc_list(items.skip(i as int)) + rest
                },
        decreases count - i,
    {
        let ghost before = *reader;
        let item = match T::deserialize(reader) {
            Ok(x) => x,
            Err(e) => {
                proof {
                    assert forall|items: Seq<T>, pre_cnt: Seq<u8>, rest: Seq<u8>|
                        counted_list_wf(items) && leb_u32_encodes(pre_cnt, items.len() as u32)
                            && old(reader).remaining() == #[trigger] (pre_cnt + (enc_list(items)
                            + rest)) implies false by {
                        lemma_enc_list_first(items, i as int);
                        assert(before.remaining() == items[i as int].enc() + (enc_list(
                            items.skip(i + 1int),
                        ) + rest));
                    }
                    assert forall|items: Seq<T>, rest: Seq<u8>|
                        counted_list_wf(items) && old(reader).remaining() == #[trigger] (
                        enc_counted_list(items) + rest) implies false by {
                        lemma_enc_is_leb_u32_encoding(items.len() as u32);
                        assert(enc_counted_list(items) + rest =~= enc_leb_u32(items.len() as u32)
                            + (enc_list(items) + rest));
                    }
                }
                return Err(e);
            },
        };
        out.push(item);
        proof {
            assert forall|items: Seq<T>, pre_cnt: Seq<u8>, rest: Seq<u8>|
                counted_list_wf(items) && leb_u32_encodes(pre_cnt, items.len() as u32) && old(
                    reader,
                ).remaining() == #[trigger] (pre_cnt + (enc_list(items) + rest)) implies {
                &&& items.len() == count
                &&& mid.position() == old(reader).position() + pre_cnt.len()
                &&& list_deq(out@, items.take(i + 1int))
                &&& reader.remaining() == enc_list(items.skip(i + 1int)) + rest
            } by {
                lemma_enc_list_first(items, i as int);
                assert(before.remaining() == items[i as int].enc() + (enc_list(items.skip(
                    i + 1int,
                )) + rest));
                lemma_reader_advance(
                    before,
                    *reader,
                    items[i as int].enc(),
                    enc_list(items.skip(i + 1int)) + rest,
                );
                assert(out@.take(i as int) =~= out@.drop_last());
                assert(list_deq(out@.drop_last(), items.take(i as int)));
                assert(out@[i as int].deq(&items.take(i + 1int)[i as int]));
                assert forall|j: int| 0 <= j < i + 1 implies (#[trigger] out@[j]).deq(
                    &items.take(i + 1int)[j],
                ) by {
                    if j < i {
                        assert(out@[j] == out@.drop_last()[j]);
                        assert(out@.drop_last()[j].deq(&items.take(i as int)[j]));
                    }
                }
            }
        }
        i = i + 1;
    }
    proof {
        assert forall|items: Seq<T>, pre_cnt: Seq<u8>, rest: Seq<u8>|
            counted_list_wf(items) && leb_u32_encodes(pre_cnt, items.len() as u32) && old(
                reader,
            ).remaining() == #[trigger] (pre_cnt + (enc_list(items) + rest)) implies list_deq(
            out@,
            items,
        ) && reader.position() == old(reader).position() + pre_cnt.len() + enc_list(
            items,
        ).len() by {
            assert(items.take(count as int) =~= items);
            assert(items.skip(count as int) =~= Seq::<T>::empty());
            assert(enc_list(items.skip(count as int)) =~= Seq::<u8>::empty());
            assert(reader.remaining() =~= rest);
            lemma_remaining_len(mid);
            lemma_remaining_len(*reader);
        }
        assert forall|items: Seq<T>, rest: Seq<u8>|
            counted_list_wf(items) && old(reader).remaining() == #[trigger] (enc_counted_list(
                items,
            ) + rest) implies list_deq(out@, items) && reader.position() == old(reader).position()
            + enc_counted_list(items).len() by {
            lemma_enc_is_leb_u32_encoding(items.len() as u32);
            assert(enc_counted_list(items) + rest =~= enc_leb_u32(items.len() as u32) + (enc_list(
                items,
            ) + rest));
        }
    }
    Ok(out)
}


/// The seven-bit codes the type grammar uses, evaluated.
pub proof fn lemma_vi7_code_bytes()
    ensures
        vi7_of_byte(0x7fu8) == -0x01i8,
        vi7_of_byte(0x7eu8) == -0x02i8,
        vi7_of_byte(0x7du8) == -0x03i8,
        vi7_of_byte(0x7cu8) == -0x04i8,
        vi7_of_byte(0x40u8) == -0x40i8,
        vi7_of_byte(0x60u8) == -0x20i8,
{
    assert(0x7fu8 & 0x40 != 0 && 0x7eu8 & 0x40 != 0 && 0x7du8 & 0x40 != 0 && 0x7cu8 & 0x40 != 0
        && 0x40u8 & 0x40 != 0 && 0x60u8 & 0x40 != 0) by (bit_vector);
    assert(((0x7fu8 | 0x80) as i8) == -0x01 && ((0x7eu8 | 0x80) as i8) == -0x02 && ((0x7du8
        | 0x80) as i8) == -0x03 && ((0x7cu8 | 0x80) as i8) == -0x04 && ((0x40u8 | 0x80) as i8)
        == -0x40 && ((0x60u8 | 0x80) as i8) == -0x20) by (bit_vector);
}


// ---------------------------------------------------------------------------
// Counted lists of unsigned 32-bit indices.
// ---------------------------------------------------------------------------

/// Concatenated LEB128 encodings of a sequence of indices.
pub open spec fn enc_leb_u32_seq(s: Seq<u32>) -> Seq<u8>
    decreases s.len(),
{
    if s.len() == 0 {
        Seq::empty()
    } else {
        enc_leb_u32(s[0]) + enc_leb_u32_seq(s.drop_first())
    }
}

/// Encoding of a counted list of indices: count, then each index.
pub open spec fn enc_u32_counted(s: Seq<u32>) -> Seq<u8> {
    enc_leb_u32(s.len() as u32) + enc_leb_u32_seq(s)
}

/// Splitting one index encoding off the front of an encoded index list.
pub proof fn lemma_enc_leb_u32_seq_first(s: Seq<u32>, i: int)
    requires
        0 <= i < s.len(),
    ensures
        enc_leb_u32_seq(s.skip(i)) == enc_leb_u32(s[i]) + enc_leb_u32_seq(s.skip(i + 1)),
{
    let sub = s.skip(i);
    assert(sub.len() > 0);
    assert(sub[0] == s[i]);
    assert(sub.drop_first() =~= s.skip(i + 1));
}

/// Extending an encoded prefix of an index list by one element.
pub proof fn lemma_enc_leb_u32_seq_take_succ(s: Seq<u32>, i: int)
    requires
        0 <= i < s.len(),
    ensures
        enc_leb_u32_seq(s.take(i + 1)) == enc_leb_u32_seq(s.take(i)) + enc_leb_u32(s[i]),
    decreases i,
{
    if i == 0 {
        assert(s.take(1).drop_first() =~= s.take(0));
        assert(enc_leb_u32_seq(s.take(0)) == Seq::<u8>::empty());
        assert(enc_leb_u32_seq(s.take(1)) =~= enc_leb_u32_seq(s.take(0)) + enc_leb_u32(s[0]));
    } else {
        let sub = s.drop_first();
        lemma_enc_leb_u32_seq_take_succ(sub, i - 1);
        assert(s.take(i + 1).drop_first() =~= sub.take(i));
        assert(s.take(i).drop_first() =~= sub.take(i - 1));
        assert(s.take(i + 1)[0] == s[0]);
        assert(s.take(i)[0] == s[0]);
        assert(enc_leb_u32_seq(s.take(i + 1)) == enc_leb_u32(s[0]) + enc_leb_u32_seq(sub.take(i)));
        assert(enc_leb_u32_seq(s.take(i)) == enc_leb_u32(s[0]) + enc_leb_u32_seq(sub.take(i - 1)));
        assert(sub.take(i)[i - 1] == s[i]);
        assert(enc_leb_u32_seq(s.take(i + 1)) =~= enc_leb_u32_seq(s.take(i)) + enc_leb_u32(s[i]));
    }
}

/// The chunks of a byte stream, in order.
pub open spec fn concat_chunks(chunks: Seq<Seq<u8>>) -> Seq<u8>
    decreases chunks.len(),
{
    if chunks.len() == 0 {
        Seq::empty()
    } else {
        chunks[0] + concat_chunks(chunks.drop_first())
    }
}

/// Each chunk is one whole LEB128 representation, minimal or padded, of
/// the corresponding index.
pub open spec fn chunks_encode_u32s(chunks: Seq<Seq<u8>>, values: Seq<u32>) -> bool {
    chunks.len() == values.len() && (forall|k: int|
        0 <= k < chunks.len() ==> leb_u32_encodes(#[trigger] chunks[k], values[k]))
}

/// Splitting one chunk off the front of a chunked stream.
pub proof fn lemma_concat_chunks_first(chunks: Seq<Seq<u8>>, i: int)
    requires
        0 <= i < chunks.len(),
    ensures
        concat_chunks(chunks.skip(i)) == chunks[i] + concat_chunks(chunks.skip(i + 1)),
{
    let sub = chunks.skip(i);
    assert(sub.len() > 0);
    assert(sub[0] == chunks[i]);
    assert(sub.drop_first() =~= chunks.skip(i + 1));
}

/// The minimal encodings of a sequence of indices, chunk for chunk.
pub open spec fn min_chunks_of(values: Seq<u32>) -> Seq<Seq<u8>> {
    Seq::new(values.len(), |k: int| enc_leb_u32(values[k]))
}

/// Concatenating the minimal chunks gives the minimal sequence encoding.
pub proof fn lemma_concat_min_chunks(values: Seq<u32>)
    ensures
        concat_chunks(min_chunks_of(values)) == enc_leb_u32_seq(values),
    decreases values.len(),
{
    if values.len() > 0 {
        lemma_concat_min_chunks(values.drop_first());
        assert(min_chunks_of(values).drop_first() =~= min_chunks_of(values.drop_first()));
        assert(concat_chunks(min_chunks_of(values)) =~= enc_leb_u32_seq(values));
    } else {
        assert(concat_chunks(min_chunks_of(values)) =~= enc_leb_u32_seq(values));
    }
}

/// Serialize a counted list of indices.
pub fn write_u32_counted(out: &mut Vec<u8>, items: &Vec<u32>)
    requires
        items@.len() <= u32::MAX,
    ensures
        final(out)@ == old(out)@ + enc_u32_counted(items@),
{
    write_leb_u32(out, items.len() as u32);
    let n = items.len();
    let mut i: usize = 0;
    proof {
        assert(enc_leb_u32_seq(items@.take(0int)) =~= Seq::<u8>::empty());
        assert(out@ =~= old(out)@ + enc_leb_u32(items@.len() as u32) + enc_leb_u32_seq(
            items@.take(0int),
        ));
    }
    while i < n
        invariant
            i <= n,
            n == items@.len() <= u32::MAX,
            out@ == old(out)@ + enc_leb_u32(items@.len() as u32) + enc_leb_u32_seq(
                items@.take(i as int),
            ),
        decreases n - i,
    {
        write_leb_u32(out, items[i]);
        proof {
            lemma_enc_leb_u32_seq_take_succ(items@, i as int);
            assert(out@ =~= old(out)@ + enc_leb_u32(items@.len() as u32) + enc_leb_u32_seq(
                items@.take(i + 1int),
            ));
        }
        i = i + 1;
    }
    proof {
        assert(items@.take(n as int) =~= items@);
        assert(final(out)@ =~= old(out)@ + enc_u32_counted(items@));
    }
}

/// Deserialize a counted list of indices: on any encoded input — every
/// LEB128 field minimal or padded — the result is exactly the encoded
/// sequence.
pub fn read_u32_counted(reader: &mut Reader) -> (r: Result<Vec<u32>, Error>)
    requires
        old(reader).wf(),
    ensures
        final(reader).wf(),
        final(reader).input() == old(reader).input(),
        final(reader).position() >= old(reader).position(),
        r is Ok ==> final(reader).position() > old(reader).position(),
        forall|s: Seq<u32>, pre_cnt: Seq<u8>, chunks: Seq<Seq<u8>>, rest: Seq<u8>|
            #![trigger chunks_encode_u32s(chunks, s), pre_cnt + (concat_chunks(chunks) + rest)]
            s.len() <= u32::MAX && leb_u32_encodes(pre_cnt, s.len() as u32) && chunks_encode_u32s(
                chunks,
                s,
            ) && old(reader).remaining() == pre_cnt + (concat_chunks(chunks) + rest) ==> r is Ok
                && r->Ok_0@ == s && final(reader).position() == old(reader).position()
                + pre_cnt.len() + concat_chunks(chunks).len(),
        forall|s: Seq<u32>, rest: Seq<u8>|
            s.len() <= u32::MAX && old(reader).remaining() == #[trigger] (enc_u32_counted(s)
                + rest) ==> r is Ok && r->Ok_0@ == s && final(reader).position() == old(
                reader,
            ).position() + enc_u32_counted(s).len(),
{
    let count = match read_leb_u32(reader, 5) {
        Ok(c) => c,
        Err(e) => {
            proof {
                assert forall|s: Seq<u32>, pre_cnt: Seq<u8>, chunks: Seq<Seq<u8>>, rest: Seq<u8>|
                    #![trigger chunks_encode_u32s(chunks, s), pre_cnt + (concat_chunks(chunks) + rest)]
                    s.len() <= u32::MAX && leb_u32_encodes(pre_cnt, s.len() as u32) && chunks_encode_u32s(
                    chunks,
                    s,
                ) && old(reader).remaining() == pre_cnt + (concat_chunks(chunks) + rest) implies false by {
                    lemma_dec_leb_u32_extend(
                        pre_cnt,
                        concat_chunks(chunks) + rest,
                        s.len() as u32,
                        pre_cnt.len() as int,
                        5,
                    );
                }
                assert forall|s: Seq<u32>, rest: Seq<u8>|
                    s.len() <= u32::MAX && old(reader).remaining() == #[trigger] (enc_u32_counted(
                        s,
                    ) + rest) implies false by {
                    lemma_enc_is_leb_u32_encoding(s.len() as u32);
                    lemma_concat_min_chunks(s);
                    assert(enc_u32_counted(s) + rest =~= enc_leb_u32(s.len() as u32) + (
                    concat_chunks(min_chunks_of(s)) + rest));
                    assert(chunks_encode_u32s(min_chunks_of(s), s)) by {
                        assert forall|k: int| 0 <= k < s.len() implies leb_u32_encodes(
                            #[trigger] min_chunks_of(s)[k],
                            s[k],
                        ) by {
                            lemma_enc_is_leb_u32_encoding(s[k]);
                        }
                    }
                }
            }
            return Err(e);
        },
    };
    let ghost mid = *reader;
    proof {
        assert forall|s: Seq<u32>, pre_cnt: Seq<u8>, chunks: Seq<Seq<u8>>, rest: Seq<u8>|
            #![trigger chunks_encode_u32s(chunks, s), pre_cnt + (concat_chunks(chunks) + rest)]
            s.len() <= u32::MAX && leb_u32_encodes(pre_cnt, s.len() as u32) && chunks_encode_u32s(
                    chunks,
                    s,
                ) && old(reader).remaining() == pre_cnt + (concat_chunks(chunks) + rest) implies count == s.len() && mid.remaining() == concat_chunks(chunks) + rest
            && mid.position() == old(reader).position() + pre_cnt.len() by {
            lemma_dec_leb_u32_extend(
                pre_cnt,
                concat_chunks(chunks) + rest,
                s.len() as u32,
                pre_cnt.len() as int,
                5,
            );
            lemma_reader_advance(*old(reader), mid, pre_cnt, concat_chunks(chunks) + rest);
        }
    }
    let mut out: Vec<u32> = Vec::new();
    let mut i: u32 = 0;
    proof {
        assert forall|s: Seq<u32>, pre_cnt: Seq<u8>, chunks: Seq<Seq<u8>>, rest: Seq<u8>|
            #![trigger chunks_encode_u32s(chunks, s), pre_cnt + (concat_chunks(chunks) + rest)]
            s.len() <= u32::MAX && leb_u32_encodes(pre_cnt, s.len() as u32) && chunks_encode_u32s(
                    chunks,
                    s,
                ) && old(reader).remaining() == pre_cnt + (concat_chunks(chunks) + rest) implies reader.remaining() == concat_chunks(chunks.skip(0int)) + rest by {
            assert(chunks.skip(0int) =~= chunks);
        }
    }
    while i < count
        invariant
            i <= count,
            out@.len() == i,
            reader.wf(),
            reader.input() == old(reader).input(),
            reader.position() >= mid.position() > old(reader).position(),
            forall|s: Seq<u32>, pre_cnt: Seq<u8>, chunks: Seq<Seq<u8>>, rest: Seq<u8>|
                #![trigger chunks_encode_u32s(chunks, s), pre_cnt + (concat_chunks(chunks) + rest)]
                s.len() <= u32::MAX && leb_u32_encodes(pre_cnt, s.len() as u32) && chunks_encode_u32s(
                    chunks,
                    s,
                ) && old(reader).remaining() == pre_cnt + (concat_chunks(chunks) + rest) ==> {
                    &&& s.len() == count
                    &&& mid.position() == old(reader).position() + pre_cnt.len()
                    &&& out@ == s.take(i as int)
                    &&& reader.remaining() == concat_chunks(chunks.skip(i as int)) + rest
                },
        decreases count - i,
    {
        let ghost before = *reader;
        let item = match read_leb_u32(reader, 5) {
            Ok(x) => x,
            Err(e) => {
                proof {
                    assert forall|
                        s: Seq<u32>,
                        pre_cnt: Seq<u8>,
                        chunks: Seq<Seq<u8>>,
                        rest: Seq<u8>,
                    |
                        #![trigger chunks_encode_u32s(chunks, s), pre_cnt + (concat_chunks(chunks) + rest)]
                        s.len() <= u32::MAX && leb_u32_encodes(pre_cnt, s.len() as u32) && chunks_encode_u32s(
                    chunks,
                    s,
                ) && old(reader).remaining() == pre_cnt + (concat_chunks(chunks) + rest) implies false by {
                        lemma_concat_chunks_first(chunks, i as int);
                        assert(before.remaining() =~= chunks[i as int] + (concat_chunks(
                            chunks.skip(i + 1int),
                        ) + rest));
                        lemma_dec_leb_u32_extend(
                            chunks[i as int],
                            concat_chunks(chunks.skip(i + 1int)) + rest,
                            s[i as int],
                            chunks[i as int].len() as int,
                            5,
                        );
                    }
                    assert forall|s: Seq<u32>, rest: Seq<u8>|
                        s.len() <= u32::MAX && old(reader).remaining() == #[trigger] (
                        enc_u32_counted(s) + rest) implies false by {
                        lemma_enc_is_leb_u32_encoding(s.len() as u32);
                        lemma_concat_min_chunks(s);
                        assert(enc_u32_counted(s) + rest =~= enc_leb_u32(s.len() as u32) + (
                        concat_chunks(min_chunks_of(s)) + rest));
                        assert(chunks_encode_u32s(min_chunks_of(s), s)) by {
                            assert forall|k: int| 0 <= k < s.len() implies leb_u32_encodes(
                                #[trigger] min_chunks_of(s)[k],
                                s[k],
                            ) by {
                                lemma_enc_is_leb_u32_encoding(s[k]);
                            }
                        }
                    }
                }
                return Err(e);
            },
        };
        out.push(item);
        proof {
            assert forall|s: Seq<u32>, pre_cnt: Seq<u8>, chunks: Seq<Seq<u8>>, rest: Seq<u8>|
                #![trigger chunks_encode_u32s(chunks, s), pre_cnt + (concat_chunks(chunks) + rest)]
                s.len() <= u32::MAX && leb_u32_encodes(pre_cnt, s.len() as u32) && chunks_encode_u32s(
                    chunks,
                    s,
                ) && old(reader).remaining() == pre_cnt + (concat_chunks(chunks) + rest) implies {
                &&& s.len() == count
                &&& mid.position() == old(reader).position() + pre_cnt.len()
                &&& out@ == s.take(i + 1int)
                &&& reader.remaining() == concat_chunks(chunks.skip(i + 1int)) + rest
            } by {
                lemma_concat_chunks_first(chunks, i as int);
                assert(before.remaining() =~= chunks[i as int] + (concat_chunks(chunks.skip(
                    i + 1int,
                )) + rest));
                lemma_dec_leb_u32_extend(
                    chunks[i as int],
                    concat_chunks(chunks.skip(i + 1int)) + rest,
                    s[i as int],
                    chunks[i as int].len() as int,
                    5,
                );
                lemma_reader_advance(
                    before,
                    *reader,
                    chunks[i as int],
                    concat_chunks(chunks.skip(i + 1int)) + rest,
                );
                assert(item == s[i as int]);
                assert(out@ =~= s.take(i + 1int));
            }
        }
        i = i + 1;
    }
    proof {
        assert forall|s: Seq<u32>, pre_cnt: Seq<u8>, chunks: Seq<Seq<u8>>, rest: Seq<u8>|
            #![trigger chunks_encode_u32s(chunks, s), pre_cnt + (concat_chunks(chunks) + rest)]
            s.len() <= u32::MAX && leb_u32_encodes(pre_cnt, s.len() as u32) && chunks_encode_u32s(
                    chunks,
                    s,
                ) && old(reader).remaining() == pre_cnt + (concat_chunks(chunks) + rest) implies out@ == s && reader.position() == old(reader).position() + pre_cnt.len()
            + concat_chunks(chunks).len() by {
            assert(s.take(count as int) =~= s);
            assert(chunks.skip(count as int) =~= Seq::<Seq<u8>>::empty());
            assert(concat_chunks(chunks.skip(count as int)) =~= Seq::<u8>::empty());
            assert(reader.remaining() =~= rest);
            lemma_remaining_len(mid);
            lemma_remaining_len(*reader);
        }
        assert forall|s: Seq<u32>, rest: Seq<u8>|
            s.len() <= u32::MAX && old(reader).remaining() == #[trigger] (enc_u32_counted(s)
                + rest) implies out@ == s && reader.position() == old(reader).position()
            + enc_u32_counted(s).len() by {
            lemma_enc_is_leb_u32_encoding(s.len() as u32);
            lemma_concat_min_chunks(s);
            assert(enc_u32_counted(s) + rest =~= enc_leb_u32(s.len() as u32) + (concat_chunks(
                min_chunks_of(s),
            ) + rest));
            assert(chunks_encode_u32s(min_chunks_of(s), s)) by {
                assert forall|k: int| 0 <= k < s.len() implies leb_u32_encodes(
                    #[trigger] min_chunks_of(s)[k],
                    s[k],
                ) by {
                    lemma_enc_is_leb_u32_encoding(s[k]);
                }
            }
        }
    }
    Ok(out)
}

/// A list read from a length-prefixed sequence of elements.
pub struct CountedList<T>(pub Vec<T>);

impl<T> CountedList<T> {
    /// Destroy the counted list, returning the inner vector.
    pub fn into_inner(self) -> (r: Vec<T>)
        ensures
            r == self.0,
    {
        self.0
    }
}

impl<T: Deserialize> CountedList<T> {
    /// Decode a counted list from the front of `reader`.
    pub fn deserialize(reader: &mut Reader) -> (r: Result<Self, Error>)
        requires
            old(reader).wf(),
        ensures
            final(reader).wf(),
            forall|items: Seq<T>, rest: Seq<u8>|
                counted_list_wf(items) && old(reader).remaining() == #[trigger] (enc_counted_list(
                    items,
                ) + rest) ==> r is Ok && list_deq(r->Ok_0.0@, items),
            forall|items: Seq<T>, pre_cnt: Seq<u8>, rest: Seq<u8>|
                counted_list_wf(items) && leb_u32_encodes(pre_cnt, items.len() as u32) && old(
                    reader,
                ).remaining() == #[trigger] (pre_cnt + (enc_list(items) + rest)) ==> r is Ok
                    && list_deq(r->Ok_0.0@, items),
    {
        match deserialize_counted_list::<T>(reader) {
            Ok(items) => Ok(CountedList(items)),
            Err(e) => Err(e),
        }
    }
}

/// Buffers a payload so it can be written behind its own byte length.
pub struct CountedWriter {
    /// The buffered payload.
    pub data: Vec<u8>,
}

impl CountedWriter {
    /// New counted writer with an empty payload.
    pub fn new() -> (r: Self)
        ensures
            r.data@ == Seq::<u8>::empty(),
    {
        CountedWriter { data: Vec::new() }
    }

    /// Append bytes to the buffered payload.
    pub fn write(&mut self, bytes: &[u8])
        ensures
            final(self).data@ == old(self).data@ + bytes@,
    {
        crate::elements::io::write_bytes(&mut self.data, bytes);
    }

    /// Write the accumulated length and payload to `out`.
    pub fn done(self, out: &mut Vec<u8>)
        requires
            self.data@.len() <= u32::MAX,
        ensures
            final(out)@ == old(out)@ + enc_leb_u32(self.data@.len() as u32) + self.data@,
    {
        write_leb_u32(out, self.data.len() as u32);
        crate::elements::io::write_bytes(out, self.data.as_slice());
    }
}

} // verus!
