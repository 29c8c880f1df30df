//! The file-level envelope: what a receiver needs to check a reassembled
//! transfer, and its wire form.

use vstd::prelude::*;
use crate::bytes::append_bytes;
use crate::varint::{varint_bytes, varint_of};

verus! {

/// The standard 32-bit CRC (IEEE polynomial) of `data`.
pub uninterp spec fn crc32_of(data: Seq<u8>) -> u32;

/// Relies on crc32fast::hash: the CRC-32 (IEEE) checksum of the whole of
/// `data`, which depends on those bytes alone.
#[verifier::external_body]
fn crc32(data: &[u8]) -> (r: u32)
    ensures
        r == crc32_of(data@),
{
    crc32fast::hash(data)
}

/// Metadata of one transferred file.
#[derive(Clone, Debug, PartialEq, Eq)]
pub struct FileEnvelope {
    /// The file's display name.
    pub name: Vec<u8>,
    /// Length of the file in bytes.
    pub total_size: u64,
    /// CRC-32 over the whole file.
    pub checksum: u32,
    /// Number of blocks the file was split into.
    pub block_count: u64,
}

/// Protobuf field keys of the envelope: field number times eight plus the
/// wire type (2 for length-delimited bytes, 0 for a varint).
pub const KEY_NAME: u8 = 0x0A;
pub const KEY_TOTAL_SIZE: u8 = 0x10;
pub const KEY_CHECKSUM: u8 = 0x18;
pub const KEY_BLOCK_COUNT: u8 = 0x20;

/// The wire form of an envelope: a protobuf message whose fields 1 to 4 are
/// the name, the size, the checksum and the block count, in that order.
pub open spec fn envelope_bytes(name: Seq<u8>, total_size: u64, checksum: u32, block_count: u64) -> Seq<u8> {
    seq![KEY_NAME] + varint_of(name.len()) + name
        + seq![KEY_TOTAL_SIZE] + varint_of(total_size as nat)
        + seq![KEY_CHECKSUM] + varint_of(checksum as nat)
        + seq![KEY_BLOCK_COUNT] + varint_of(block_count as nat)
}

impl FileEnvelope {
    /// Describes the file `data` called `name`, once it is known to take
    /// `block_count` blocks.
    pub fn describe(name: &[u8], data: &[u8], block_count: u64) -> (r: FileEnvelope)
        ensures
            r.name@ == name@,
            r.total_size == data@.len(),
            r.checksum == crc32_of(data@),
            r.block_count == block_count,
    {
        let checksum = crc32(data);
        let mut own_name: Vec<u8> = Vec::new();
        append_bytes(&mut own_name, name);
        FileEnvelope { name: own_name, total_size: data.len() as u64, checksum, block_count }
    }

    /// The bytes that the envelope's own symbol carries.
    pub fn encode(&self) -> (r: Vec<u8>)
        ensures
            r@ == envelope_bytes(self.name@, self.total_size, self.checksum, self.block_count),
    {
        let mut out: Vec<u8> = Vec::new();
        out.push(KEY_NAME);
        let name_len = varint_bytes(self.name.len() as u64);
        append_bytes(&mut out, name_len.as_slice());
        append_bytes(&mut out, self.name.as_slice());
        out.push(KEY_TOTAL_SIZE);
        let size = varint_bytes(self.total_size);
        append_bytes(&mut out, size.as_slice());
        out.push(KEY_CHECKSUM);
        let checksum = varint_bytes(self.checksum as u64);
        append_bytes(&mut out, checksum.as_slice());
        out.push(KEY_BLOCK_COUNT);
        let count = varint_bytes(self.block_count);
        append_bytes(&mut out, count.as_slice());
        assert(out@ =~= envelope_bytes(self.name@, self.total_size, self.checksum, self.block_count));
        out
    }
}

} // verus!
