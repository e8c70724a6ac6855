//! Protobuf length delimiters: LEB128 varints, as `prost` encodes and
//! decodes them, and the calls into `prost` that do so.

use vstd::prelude::*;
use vstd::arithmetic::power2::{pow2, lemma2_to64, lemma_pow2_adds};

verus! {

/// The LEB128 encoding of `v`: seven bits per byte, least significant group
/// first, the high bit set on every byte but the last.
pub open spec fn leb128(v: nat) -> Seq<u8>
    decreases v,
{
    if v < 128 {
        seq![v as u8]
    } else {
        seq![(v % 128 + 128) as u8] + leb128(v / 128)
    }
}

/// The number of bytes of the LEB128 encoding of `v`.
pub open spec fn leb128_len(v: nat) -> nat
    decreases v,
{
    if v < 128 {
        1
    } else {
        1 + leb128_len(v / 128)
    }
}

/// Decodes a varint whose first byte is `bytes[0]` and sits at position
/// `pos` of the varint: the value and the number of bytes it takes. A varint
/// has at most ten bytes, the tenth may only be 0 or 1 (the value must fit
/// 64 bits), and running out of bytes is no varint.
pub open spec fn varint_decode(bytes: Seq<u8>, pos: nat) -> Option<(nat, nat)>
    decreases bytes.len(),
{
    if pos >= 10 || bytes.len() == 0 {
        None
    } else if bytes[0] < 0x80 {
        if pos == 9 && bytes[0] >= 2 {
            None
        } else {
            Some((bytes[0] as nat, 1))
        }
    } else {
        match varint_decode(bytes.drop_first(), pos + 1) {
            Some((v, n)) => Some(((bytes[0] - 0x80) as nat + 128 * v, n + 1)),
            None => None,
        }
    }
}

/// What `prost::decode_length_delimiter` makes of `bytes`: the length that
/// the varint at their start encodes and how many bytes follow it, or `None`
/// when they start with no complete, valid varint or its value does not fit
/// a `usize`.
pub open spec fn decoded_length_delimiter(bytes: Seq<u8>) -> Option<(usize, usize)> {
    match varint_decode(bytes, 0) {
        Some((v, n)) => if v <= usize::MAX {
            Some((v as usize, (bytes.len() - n) as usize))
        } else {
            None
        },
        None => None,
    }
}

/// A decoded varint takes at least one byte and no more than there are.
pub proof fn lemma_varint_size(bytes: Seq<u8>, pos: nat)
    ensures
        varint_decode(bytes, pos) matches Some((_, n)) ==> 1 <= n <= bytes.len(),
    decreases bytes.len(),
{
    if pos < 10 && bytes.len() > 0 && bytes[0] >= 0x80 {
        lemma_varint_size(bytes.drop_first(), pos + 1);
    }
}

/// A decoded length delimiter leaves no more bytes than it was given.
pub proof fn lemma_delimiter_rest(bytes: Seq<u8>)
    ensures
        decoded_length_delimiter(bytes) matches Some((_, rest)) ==> rest < bytes.len(),
{
    lemma_varint_size(bytes, 0);
}

/// The LEB128 encoding of `v` has `leb128_len(v)` bytes.
pub proof fn lemma_leb128_len(v: nat)
    ensures
        leb128(v).len() == leb128_len(v),
        1 <= leb128_len(v),
    decreases v,
{
    if v >= 128 {
        lemma_leb128_len(v / 128);
    }
}

/// Every byte of a LEB128 encoding but the last has its high bit set.
pub proof fn lemma_leb128_continues(v: nat, i: int)
    requires
        0 <= i < leb128_len(v) - 1,
    ensures
        leb128(v)[i] >= 0x80,
    decreases v,
{
    lemma_leb128_len(v);
    if v >= 128 && i > 0 {
        lemma_leb128_len(v / 128);
        lemma_leb128_continues(v / 128, i - 1);
    }
}

/// Bytes that all have their high bit set hold no complete varint.
pub proof fn lemma_unterminated_varint(bytes: Seq<u8>, pos: nat)
    requires
        forall|i: int| 0 <= i < bytes.len() ==> bytes[i] >= 0x80,
    ensures
        varint_decode(bytes, pos) is None,
    decreases bytes.len(),
{
    if pos < 10 && bytes.len() > 0 {
        lemma_unterminated_varint(bytes.drop_first(), pos + 1);
    }
}

/// The LEB128 encoding of a value that fits the remaining bits of a varint
/// decodes back to it, whatever follows.
pub proof fn lemma_varint_decodes_leb128(v: nat, pos: nat, t: Seq<u8>)
    requires
        pos <= 9,
        v < pow2((64 - 7 * pos) as nat),
    ensures
        varint_decode(leb128(v) + t, pos) == Some((v, leb128_len(v))),
    decreases v,
{
    lemma2_to64();
    let s = leb128(v) + t;
    if v < 128 {
        assert(s[0] == v as u8);
    } else {
        if pos == 9 {
            assert(pow2(1) == 2);
        }
        assert(pos < 9);
        let e = (64 - 7 * (pos + 1)) as nat;
        lemma_pow2_adds(7, e);
        assert((64 - 7 * pos) as nat == 7 + e);
        assert(v < 128 * pow2(e));
        assert(v / 128 < pow2(e)) by (nonlinear_arith)
            requires
                v < 128 * pow2(e),
        ;
        assert(s[0] == (v % 128 + 128) as u8);
        assert(s.drop_first() =~= leb128(v / 128) + t);
        lemma_varint_decodes_leb128(v / 128, pos + 1, t);
    }
}

/// The length delimiter of any `usize` decodes back to it, with nothing left
/// over, while no shorter part of it decodes at all.
pub proof fn lemma_delimiter_round_trip(len: usize)
    ensures
        decoded_length_delimiter(leb128(len as nat)) == Some((len, 0usize)),
        forall|k: int|
            0 <= k < leb128_len(len as nat) ==> #[trigger] decoded_length_delimiter(
                leb128(len as nat).take(k),
            ) is None,
{
    let d = leb128(len as nat);
    lemma2_to64();
    lemma_leb128_len(len as nat);
    lemma_varint_decodes_leb128(len as nat, 0, Seq::empty());
    assert(d + Seq::<u8>::empty() =~= d);
    assert forall|k: int| 0 <= k < leb128_len(len as nat) implies #[trigger] decoded_length_delimiter(
        d.take(k),
    ) is None by {
        assert forall|i: int| 0 <= i < d.take(k).len() implies d.take(k)[i] >= 0x80 by {
            lemma_leb128_continues(len as nat, i);
        }
        lemma_unterminated_varint(d.take(k), 0);
    }
}

/// Calls `prost::length_delimiter_len`, which returns the length of the
/// LEB128 encoding of `length`.
#[verifier::external_body]
pub(crate) fn length_delimiter_len(length: usize) -> (r: usize)
    ensures
        r == leb128_len(length as nat),
{
    prost::length_delimiter_len(length)
}

/// Calls `prost::encode_length_delimiter` on an empty `Vec`, which receives
/// the LEB128 encoding of `length` (a `Vec` always has room for it, so the
/// call does not fail).
#[verifier::external_body]
pub(crate) fn encode_length_delimiter(length: usize) -> (r: Vec<u8>)
    ensures
        r@ == leb128(length as nat),
{
    let mut buf: Vec<u8> = Vec::new();
    let _ = prost::encode_length_delimiter(length, &mut buf);
    buf
}

/// Calls `prost::decode_length_delimiter` on `bytes`; on success returns the
/// length and how many bytes the decoder left unread.
#[verifier::external_body]
pub(crate) fn decode_length_delimiter(bytes: &[u8]) -> (r: Option<(usize, usize)>)
    ensures
        r == decoded_length_delimiter(bytes@),
{
    let mut unread: &[u8] = bytes;
    match prost::decode_length_delimiter(&mut unread) {
        Ok(length) => Some((length, unread.len())),
        Err(_) => None,
    }
}

} // verus!
