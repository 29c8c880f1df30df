//! Splitting a file into numbered blocks that each fit one symbol.

use vstd::prelude::*;
use crate::bytes::append_bytes;
use crate::capacity::{capacity, capacity_of, provisioned, ConfigError, Strength};
use crate::varint::{
    encoded_len, lemma_encoded_len_bounds, lemma_varint_len, varint_bytes, varint_len, varint_of,
    MAX_VARINT_LEN,
};

verus! {

/// One framed unit of a transfer: its place in the sequence and the slice
/// of the file that it carries. One block becomes one symbol.
#[derive(Clone, Debug, PartialEq, Eq)]
pub struct Block {
    pub sequence_number: u64,
    pub payload: Vec<u8>,
}

/// Payload room of block `i`: what the capacity leaves after its number.
pub open spec fn room(cap: nat, i: nat) -> int {
    cap - encoded_len(i)
}

/// The payloads that blocks `i`, `i + 1`, ... carry for the bytes `data`:
/// each takes as many bytes as its room allows, the last one the rest.
pub open spec fn chunks_from(data: Seq<u8>, cap: nat, i: nat) -> Seq<Seq<u8>>
    decreases data.len(),
{
    if data.len() == 0 || room(cap, i) <= 0 {
        seq![]
    } else {
        let take = if room(cap, i) < data.len() {
            room(cap, i)
        } else {
            data.len() as int
        };
        seq![data.take(take)] + chunks_from(data.skip(take), cap, i + 1)
    }
}

/// The payloads of the blocks of a whole file, numbered from zero.
pub open spec fn chunks(data: Seq<u8>, cap: nat) -> Seq<Seq<u8>> {
    chunks_from(data, cap, 0)
}

/// A block as a value: its number and its payload.
pub open spec fn block_view(b: Block) -> (u64, Seq<u8>) {
    (b.sequence_number, b.payload@)
}

pub open spec fn block_views(blocks: Seq<Block>) -> Seq<(u64, Seq<u8>)> {
    blocks.map_values(|b: Block| block_view(b))
}

/// Payloads numbered in order: the `k`th carries number `k`.
pub open spec fn numbered(payloads: Seq<Seq<u8>>) -> Seq<(u64, Seq<u8>)> {
    Seq::new(payloads.len(), |k: int| (k as u64, payloads[k]))
}

/// What packetizing `data` at capacity `cap` returns, as values.
pub open spec fn packetized(data: Seq<u8>, cap: nat) -> Result<Seq<(u64, Seq<u8>)>, ConfigError> {
    if cap <= MAX_VARINT_LEN {
        Err(ConfigError::CapacityTooSmall)
    } else {
        Ok(numbered(chunks(data, cap)))
    }
}

pub open spec fn result_view(r: Result<Vec<Block>, ConfigError>) -> Result<Seq<(u64, Seq<u8>)>, ConfigError> {
    match r {
        Ok(blocks) => Ok(block_views(blocks@)),
        Err(e) => Err(e),
    }
}

/// The bytes that one block puts into its symbol: the encoded sequence
/// number, then the payload.
pub open spec fn frame_of(b: (u64, Seq<u8>)) -> Seq<u8> {
    varint_of(b.0 as nat) + b.1
}

impl Block {
    /// The wire form of this block.
    pub fn frame(&self) -> (r: Vec<u8>)
        ensures
            r@ == frame_of(block_view(*self)),
    {
        let mut out = varint_bytes(self.sequence_number);
        append_bytes(&mut out, self.payload.as_slice());
        out
    }
}

/// The bytes of `data` from `start` up to `end`.
fn copy_range(data: &[u8], start: usize, end: usize) -> (r: Vec<u8>)
    requires
        start <= end <= data@.len(),
    ensures
        r@ == data@.subrange(start as int, end as int),
{
    let mut out: Vec<u8> = Vec::new();
    let mut j: usize = start;
    while j < end
        invariant
            start <= j <= end,
            end <= data@.len(),
            out@ == data@.subrange(start as int, j as int),
        decreases end - j,
    {
        out.push(data[j]);
        j = j + 1;
        assert(data@.subrange(start as int, j as int) =~= data@.subrange(start as int, j - 1)
            + seq![data@[j - 1]]);
    }
    out
}

/// Splits `data` into blocks for symbols that hold `cap` bytes each. Block
/// `k` carries number `k` and as many of the following bytes as remain after
/// the encoding of `k`; empty input gives no block. A capacity that cannot
/// hold the longest number and one byte is refused before any block is made.
pub fn packetize_with_capacity(data: &[u8], cap: usize) -> (r: Result<Vec<Block>, ConfigError>)
    ensures
        result_view(r) == packetized(data@, cap as nat),
{
    if cap <= MAX_VARINT_LEN {
        return Err(ConfigError::CapacityTooSmall);
    }
    let ghost all = chunks(data@, cap as nat);
    let mut blocks: Vec<Block> = Vec::new();
    let mut start: usize = 0;
    let mut i: u64 = 0;
    assert(data@.skip(0) =~= data@);
    assert(blocks@.map_values(|b: Block| b.payload@) + all =~= all);
    while start < data.len()
        invariant
            cap > MAX_VARINT_LEN,
            start <= data@.len(),
            i <= start,
            blocks@.len() == i,
            forall|k: int| 0 <= k < i ==> (#[trigger] blocks@[k]).sequence_number == k,
            all == blocks@.map_values(|b: Block| b.payload@) + chunks_from(
                data@.skip(start as int),
                cap as nat,
                i as nat,
            ),
        decreases data@.len() - start,
    {
        let ghost rest = data@.skip(start as int);
        proof {
            lemma_encoded_len_bounds(i as nat);
        }
        let number_len = varint_len(i);
        let room = cap - number_len;
        let end: usize = if data.len() - start > room {
            start + room
        } else {
            data.len()
        };
        let payload = copy_range(data, start, end);
        proof {
            let take = (end - start) as int;
            assert(payload@ =~= rest.take(take));
            assert(data@.skip(end as int) =~= rest.skip(take));
            let before = blocks@.map_values(|b: Block| b.payload@);
            assert(chunks_from(rest, cap as nat, i as nat) == seq![payload@] + chunks_from(
                data@.skip(end as int),
                cap as nat,
                (i + 1) as nat,
            ));
            assert(before + (seq![payload@] + chunks_from(
                data@.skip(end as int),
                cap as nat,
                (i + 1) as nat,
            )) =~= before.push(payload@) + chunks_from(
                data@.skip(end as int),
                cap as nat,
                (i + 1) as nat,
            ));
        }
        blocks.push(Block { sequence_number: i, payload });
        proof {
            assert(blocks@.map_values(|b: Block| b.payload@) =~= blocks@.drop_last().map_values(
                |b: Block| b.payload@,
            ).push(payload@));
        }
        start = end;
        i = i + 1;
    }
    proof {
        assert(data@.skip(start as int).len() == 0);
        let payloads = blocks@.map_values(|b: Block| b.payload@);
        assert(all =~= payloads);
        assert(block_views(blocks@) =~= numbered(all));
    }
    Ok(blocks)
}

/// What packetizing `data` for symbols of `size_class` at `strength`
/// returns, as values.
pub open spec fn packetize_spec(data: Seq<u8>, size_class: u16, strength: Strength) -> Result<
    Seq<(u64, Seq<u8>)>,
    ConfigError,
> {
    if !provisioned(size_class) {
        Err(ConfigError::UnsupportedSizeClass)
    } else {
        packetized(data, capacity_of(size_class, strength))
    }
}

/// Splits `data` into blocks that each fit one symbol of `size_class` at
/// error-correction `strength`, numbered from zero with no gaps.
pub fn packetize(data: &[u8], size_class: u16, strength: Strength) -> (r: Result<
    Vec<Block>,
    ConfigError,
>)
    ensures
        result_view(r) == packetize_spec(data@, size_class, strength),
{
    match capacity(size_class, strength) {
        Ok(cap) => packetize_with_capacity(data, cap),
        Err(e) => Err(e),
    }
}

/// Blocks `i`, `i + 1`, ... together carry `data` exactly; each carries at
/// least one byte and fits the capacity with its number, and each but the
/// last fills its room.
proof fn lemma_chunks_from(data: Seq<u8>, cap: nat, i: nat)
    requires
        cap > MAX_VARINT_LEN,
        i + data.len() <= u64::MAX + 1,
    ensures
        chunks_from(data, cap, i).flatten() == data,
        chunks_from(data, cap, i).len() <= data.len(),
        forall|k: int|
            0 <= k < chunks_from(data, cap, i).len() ==> 1 <= (#[trigger] chunks_from(
                data,
                cap,
                i,
            )[k]).len() && encoded_len((i + k) as nat) + chunks_from(data, cap, i)[k].len()
                <= cap,
        forall|k: int|
            0 <= k < chunks_from(data, cap, i).len() - 1 ==> (#[trigger] chunks_from(
                data,
                cap,
                i,
            )[k]).len() == room(cap, (i + k) as nat),
    decreases data.len(),
{
    let s = chunks_from(data, cap, i);
    if data.len() == 0 {
        assert(s =~= Seq::<Seq<u8>>::empty());
    } else {
        lemma_encoded_len_bounds(i);
        let take = if room(cap, i) < data.len() {
            room(cap, i)
        } else {
            data.len() as int
        };
        let t = chunks_from(data.skip(take), cap, i + 1);
        lemma_chunks_from(data.skip(take), cap, i + 1);
        assert(s == seq![data.take(take)] + t);
        assert(s.drop_first() =~= t);
        assert(data.take(take) + data.skip(take) =~= data);
        assert forall|k: int| 0 <= k < s.len() implies 1 <= (#[trigger] s[k]).len()
            && encoded_len((i + k) as nat) + s[k].len() <= cap by {
            if k > 0 {
                assert(s[k] == t[k - 1]);
                assert((i + 1 + (k - 1)) as nat == (i + k) as nat);
            }
        }
        assert forall|k: int| 0 <= k < s.len() - 1 implies (#[trigger] s[k]).len() == room(
            cap,
            (i + k) as nat,
        ) by {
            if k > 0 {
                assert(s[k] == t[k - 1]);
                assert((i + 1 + (k - 1)) as nat == (i + k) as nat);
            } else {
                assert(t.len() > 0);
                assert(data.skip(take).len() > 0);
            }
        }
    }
}

/// Concatenating the payloads of the blocks, in the order of their
/// numbers, gives back the input exactly.
pub proof fn lemma_round_trip(data: Seq<u8>, size_class: u16, strength: Strength)
    requires
        provisioned(size_class),
        data.len() <= usize::MAX,
    ensures
        packetize_spec(data, size_class, strength) is Ok,
        packetize_spec(data, size_class, strength)->Ok_0.map_values(
            |b: (u64, Seq<u8>)| b.1,
        ).flatten() == data,
{
    let cap = capacity_of(size_class, strength);
    lemma_chunks_from(data, cap, 0);
    assert(numbered(chunks(data, cap)).map_values(|b: (u64, Seq<u8>)| b.1) =~= chunks(data, cap));
}

/// Block `k` carries sequence number `k`, for every block.
pub proof fn lemma_strict_sequencing(data: Seq<u8>, size_class: u16, strength: Strength)
    requires
        provisioned(size_class),
        data.len() <= usize::MAX,
    ensures
        forall|k: int|
            0 <= k < packetize_spec(data, size_class, strength)->Ok_0.len() ==> (
            #[trigger] packetize_spec(data, size_class, strength)->Ok_0[k]).0 == k,
{
    lemma_chunks_from(data, capacity_of(size_class, strength), 0);
}

/// Every block fits its symbol: the encoding of its number plus its payload
/// is at most the capacity, and so is its frame.
pub proof fn lemma_capacity_respected(data: Seq<u8>, size_class: u16, strength: Strength)
    requires
        provisioned(size_class),
        data.len() <= usize::MAX,
    ensures
        forall|k: int|
            0 <= k < packetize_spec(data, size_class, strength)->Ok_0.len() ==> encoded_len(
                (#[trigger] packetize_spec(data, size_class, strength)->Ok_0[k]).0 as nat,
            ) + packetize_spec(data, size_class, strength)->Ok_0[k].1.len() <= capacity_of(
                size_class,
                strength,
            ) && frame_of(packetize_spec(data, size_class, strength)->Ok_0[k]).len()
                <= capacity_of(size_class, strength),
{
    let cap = capacity_of(size_class, strength);
    lemma_chunks_from(data, cap, 0);
    let bs = packetize_spec(data, size_class, strength)->Ok_0;
    assert forall|k: int| 0 <= k < bs.len() implies encoded_len((#[trigger] bs[k]).0 as nat)
        + bs[k].1.len() <= cap && frame_of(bs[k]).len() <= cap by {
        assert(chunks(data, cap)[k].len() >= 1);
        assert(bs[k].0 == k);
        lemma_varint_len(k as nat);
    }
}

/// Two results that both meet the contract of `packetize` for the same
/// arguments are the same blocks, byte for byte.
pub proof fn lemma_deterministic(
    data: Seq<u8>,
    size_class: u16,
    strength: Strength,
    r1: Result<Vec<Block>, ConfigError>,
    r2: Result<Vec<Block>, ConfigError>,
)
    requires
        result_view(r1) == packetize_spec(data, size_class, strength),
        result_view(r2) == packetize_spec(data, size_class, strength),
    ensures
        result_view(r1) == result_view(r2),
{
}

/// Empty input gives no block.
pub proof fn lemma_empty_input(size_class: u16, strength: Strength)
    requires
        provisioned(size_class),
    ensures
        packetize_spec(Seq::empty(), size_class, strength) == Ok::<
            Seq<(u64, Seq<u8>)>,
            ConfigError,
        >(Seq::empty()),
{
    let cap = capacity_of(size_class, strength);
    assert(numbered(chunks(Seq::empty(), cap)) =~= Seq::empty());
}

/// Where block 128 is not the last, it carries exactly one byte less than
/// block 127: its number takes two bytes where 127 takes one.
pub proof fn lemma_sequence_number_growth(data: Seq<u8>, size_class: u16, strength: Strength)
    requires
        provisioned(size_class),
        data.len() <= usize::MAX,
        packetize_spec(data, size_class, strength)->Ok_0.len() > 129,
    ensures
        packetize_spec(data, size_class, strength)->Ok_0[127].1.len()
            == packetize_spec(data, size_class, strength)->Ok_0[128].1.len() + 1,
{
    let cap = capacity_of(size_class, strength);
    lemma_chunks_from(data, cap, 0);
    let c = chunks(data, cap);
    assert(c[127].len() == room(cap, 127));
    assert(c[128].len() == room(cap, 128));
    reveal_with_fuel(encoded_len, 3);
    assert(encoded_len(127) == 1);
    assert(encoded_len(128) == 2);
}

} // verus!
