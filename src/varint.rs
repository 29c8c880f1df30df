//! The base-128 continuation encoding that numbers each block.

use vstd::prelude::*;

verus! {

/// The longest encoding of any `u64`.
pub const MAX_VARINT_LEN: usize = 10;

/// Number of bytes that the encoding of `v` occupies: one for every seven
/// bits of value, and at least one.
pub open spec fn encoded_len(v: nat) -> nat
    decreases v,
{
    if v < 128 {
        1
    } else {
        1 + encoded_len(v / 128)
    }
}

/// The encoding of `v`: the low seven bits first, each byte but the last
/// with its high bit set.
pub open spec fn varint_of(v: nat) -> Seq<u8>
    decreases v,
{
    if v < 128 {
        seq![v as u8]
    } else {
        seq![((v % 128) + 128) as u8] + varint_of(v / 128)
    }
}

/// The encoding of `v` is `encoded_len(v)` bytes long.
pub proof fn lemma_varint_len(v: nat)
    ensures
        varint_of(v).len() == encoded_len(v),
    decreases v,
{
    if v >= 128 {
        lemma_varint_len(v / 128);
    }
}

/// The encoding of a `u64` never takes more than `MAX_VARINT_LEN` bytes.
pub proof fn lemma_encoded_len_bounds(v: nat)
    requires
        v <= u64::MAX,
    ensures
        1 <= encoded_len(v) <= MAX_VARINT_LEN,
{
    reveal_with_fuel(encoded_len, 11);
}

/// Relies on prost::encoding::encoded_len_varint: the number of bytes of the
/// LEB128 encoding of `v`.
#[verifier::external_body]
pub(crate) fn varint_len(v: u64) -> (r: usize)
    ensures
        r == encoded_len(v as nat),
{
    prost::encoding::encoded_len_varint(v)
}

/// Relies on prost::encoding::encode_varint, which appends the LEB128
/// encoding of `v` to a growable buffer.
#[verifier::external_body]
pub(crate) fn varint_bytes(v: u64) -> (r: Vec<u8>)
    ensures
        r@ == varint_of(v as nat),
{
    let mut buf: Vec<u8> = Vec::new();
    prost::encoding::encode_varint(v, &mut buf);
    buf
}

} // verus!
