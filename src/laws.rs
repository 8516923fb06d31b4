//! What holds of the encoding as a whole.
use crate::le::{
    le_bytes, le_value, lemma_le_bytes_len, lemma_le_bytes_of_value, lemma_le_value_bound,
    lemma_le_value_of_bytes, lemma_pow256_values, pow256,
};
use crate::varuint::{
    decoded, of_u16, of_u32, of_u64, of_u8, payload_len, value_len, VarUint, Width,
};
use vstd::arithmetic::div_mod::lemma_small_mod;
use vstd::prelude::*;

verus! {

/// A value that this codec can produce: a one-byte encoding never uses a marker byte.
pub open spec fn constructible(v: VarUint) -> bool {
    v.wf() && (v.width == Width::U8 ==> v.value <= 0xfc)
}

/// Decoding the encoding of a constructible value gives the value back, whatever follows it.
pub proof fn lemma_round_trip(v: VarUint, rest: Seq<u8>)
    requires
        constructible(v),
    ensures
        decoded(v.encoding() + rest) == Some(v),
{
    let s = v.encoding() + rest;
    lemma_pow256_values();
    if v.width != Width::U8 {
        let n = value_len(v.width);
        lemma_le_bytes_len(v.value as nat, n);
        lemma_le_value_of_bytes(v.value as nat, n);
        lemma_small_mod(v.value as nat, pow256(n));
        assert(s.subrange(1, 1 + n as int) =~= le_bytes(v.value as nat, n));
    }
}

/// Bytes that decode are the encoding of what they decode to: encoding it again gives them back.
pub proof fn lemma_reencode(s: Seq<u8>)
    requires
        decoded(s) is Some,
    ensures
        constructible(decoded(s)->0),
        decoded(s)->0.encoding() == s.subrange(0, 1 + payload_len(s[0]) as int),
{
    lemma_pow256_values();
    let v = decoded(s)->0;
    if s[0] <= 0xfc {
        assert(v.encoding() =~= s.subrange(0, 1));
    } else {
        let sub = s.subrange(1, 1 + payload_len(s[0]) as int);
        lemma_le_value_bound(sub);
        lemma_le_bytes_of_value(sub);
        assert(v.encoding() =~= s.subrange(0, 1 + payload_len(s[0]) as int));
    }
}

/// Every proper prefix of an encoding is too short to decode.
pub proof fn lemma_truncated_fails(v: VarUint, k: int)
    requires
        constructible(v),
        0 <= k < v.encoding().len(),
    ensures
        decoded(v.encoding().subrange(0, k)) is None,
{
    if v.width != Width::U8 {
        lemma_le_bytes_len(v.value as nat, value_len(v.width));
    }
}

/// A `u8` up to 252 is encoded as the one byte equal to it, and that byte decodes to it.
pub proof fn lemma_one_byte(v: u8)
    requires
        v <= 252,
    ensures
        constructible(of_u8(v)),
        of_u8(v).encoding() == seq![v],
        decoded(seq![v]) == Some(of_u8(v)),
{
    lemma_pow256_values();
    lemma_round_trip(of_u8(v), seq![]);
    assert(of_u8(v).encoding() + seq![] =~= seq![v]);
}

/// A `u16` is encoded as `0xfd`, its low byte and its high byte, which decode to it.
pub proof fn lemma_three_bytes(v: u16)
    ensures
        constructible(of_u16(v)),
        of_u16(v).encoding() == seq![0xfdu8, (v % 256) as u8, (v / 256) as u8],
        decoded(of_u16(v).encoding()) == Some(of_u16(v)),
{
    lemma_pow256_values();
    reveal_with_fuel(le_bytes, 3);
    assert(pow256(0) == 1);
    lemma_round_trip(of_u16(v), seq![]);
    assert(of_u16(v).encoding() + seq![] =~= of_u16(v).encoding());
    assert(of_u16(v).encoding() =~= seq![0xfdu8, (v % 256) as u8, (v / 256) as u8]);
}

/// A `u32` is encoded as `0xfe` and its four little-endian bytes, which decode to it.
pub proof fn lemma_five_bytes(v: u32)
    ensures
        constructible(of_u32(v)),
        of_u32(v).encoding() == seq![0xfeu8] + le_bytes(v as nat, 4),
        decoded(of_u32(v).encoding()) == Some(of_u32(v)),
{
    lemma_pow256_values();
    lemma_round_trip(of_u32(v), seq![]);
    assert(of_u32(v).encoding() + seq![] =~= of_u32(v).encoding());
}

/// A `u64` is encoded as `0xff` and its eight little-endian bytes, which decode to it.
pub proof fn lemma_nine_bytes(v: u64)
    ensures
        constructible(of_u64(v)),
        of_u64(v).encoding() == seq![0xffu8] + le_bytes(v as nat, 8),
        decoded(of_u64(v).encoding()) == Some(of_u64(v)),
{
    lemma_pow256_values();
    lemma_round_trip(of_u64(v), seq![]);
    assert(of_u64(v).encoding() + seq![] =~= of_u64(v).encoding());
}

} // verus!
