//! Splits a file into numbered blocks that each fit one QR symbol, frames
//! them for transfer across an air gap, and describes the file in an
//! envelope that lets a receiver check what it reassembled.

pub mod bytes;
pub mod capacity;
pub mod envelope;
pub mod packet;
pub mod transfer;
pub mod varint;
