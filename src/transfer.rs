//! A whole transfer: the blocks of a file, its envelope, and the symbols and
//! file names that carry them.

use vstd::prelude::*;
use crate::bytes::{append_bytes, decimal_bytes, decimal_of};
use crate::capacity::{ConfigError, Strength};
use crate::envelope::{crc32_of, envelope_bytes, FileEnvelope};
use crate::packet::{block_view, frame_of, packetize, packetize_spec, result_view, Block};
use qrcode::{QrCode, types::QrError};

verus! {

#[verifier::external_type_specification]
#[verifier::external_body]
pub struct ExQrCode(QrCode);

#[verifier::external_type_specification]
#[verifier::external_body]
pub struct ExQrError(QrError);

/// Why a transfer could not be turned into symbols.
#[derive(Clone, Copy, Debug, PartialEq, Eq, Structural)]
pub enum TransferError {
    /// The size class or capacity cannot be used.
    Configuration(ConfigError),
    /// The symbol encoder refused a frame as too long for the symbol; the
    /// capacity table and the encoder disagree.
    Encoding,
}

/// A file split into blocks, with the envelope that describes it.
#[derive(Clone, Debug, PartialEq, Eq)]
pub struct Transfer {
    pub envelope: FileEnvelope,
    pub blocks: Vec<Block>,
}

/// One symbol to render, and the name of the image file it goes to.
pub struct Symbol {
    pub file_name: Vec<u8>,
    pub code: QrCode,
}

/// The suffix of every image file name, `.qr.png` in ASCII.
pub open spec fn image_suffix() -> Seq<u8> {
    seq![46u8, 113, 114, 46, 112, 110, 103]
}

/// The tag that sets the envelope's image apart from the blocks',
/// `.header` in ASCII.
pub open spec fn header_tag() -> Seq<u8> {
    seq![46u8, 104, 101, 97, 100, 101, 114]
}

/// `{name}-{sequence number}.qr.png`
pub open spec fn block_file_name(name: Seq<u8>, sequence_number: u64) -> Seq<u8> {
    name + seq![45u8] + decimal_of(sequence_number as nat) + image_suffix()
}

/// `{name}.header.qr.png`
pub open spec fn envelope_file_name(name: Seq<u8>) -> Seq<u8> {
    name + header_tag() + image_suffix()
}

fn push_image_suffix(out: &mut Vec<u8>)
    ensures
        final(out)@ == old(out)@ + image_suffix(),
{
    out.push(46);
    out.push(113);
    out.push(114);
    out.push(46);
    out.push(112);
    out.push(110);
    out.push(103);
    assert(final(out)@ =~= old(out)@ + image_suffix());
}

/// The image file name of the block numbered `sequence_number` of the file
/// `name`. Distinct numbers give distinct names.
pub fn block_artifact_name(name: &[u8], sequence_number: u64) -> (r: Vec<u8>)
    ensures
        r@ == block_file_name(name@, sequence_number),
{
    let mut out: Vec<u8> = Vec::new();
    append_bytes(&mut out, name);
    out.push(45u8);
    let digits = decimal_bytes(sequence_number);
    append_bytes(&mut out, digits.as_slice());
    push_image_suffix(&mut out);
    assert(out@ =~= block_file_name(name@, sequence_number));
    out
}

/// The image file name of the envelope of the file `name`.
pub fn envelope_artifact_name(name: &[u8]) -> (r: Vec<u8>)
    ensures
        r@ == envelope_file_name(name@),
{
    let mut out: Vec<u8> = Vec::new();
    append_bytes(&mut out, name);
    out.push(46);
    out.push(104);
    out.push(101);
    out.push(97);
    out.push(100);
    out.push(101);
    out.push(114);
    push_image_suffix(&mut out);
    assert(out@ =~= envelope_file_name(name@));
    out
}

/// Splits the file `data` called `name` into blocks for symbols of
/// `size_class` at `strength`, and describes it in an envelope whose block
/// count is that of the finished split.
pub fn prepare(name: &[u8], data: &[u8], size_class: u16, strength: Strength) -> (r: Result<
    Transfer,
    ConfigError,
>)
    ensures
        match r {
            Ok(t) => result_view(Ok(t.blocks)) == packetize_spec(data@, size_class, strength)
                && t.envelope.name@ == name@ && t.envelope.total_size == data@.len()
                && t.envelope.checksum == crc32_of(data@) && t.envelope.block_count
                == t.blocks@.len(),
            Err(e) => packetize_spec(data@, size_class, strength) == Err::<
                Seq<(u64, Seq<u8>)>,
                ConfigError,
            >(e),
        },
{
    match packetize(data, size_class, strength) {
        Ok(blocks) => {
            let envelope = FileEnvelope::describe(name, data, blocks.len() as u64);
            Ok(Transfer { envelope, blocks })
        },
        Err(e) => Err(e),
    }
}

/// The index of `strength` among L, M, Q, H.
pub open spec fn level_index(strength: Strength) -> u8 {
    match strength {
        Strength::L => 0,
        Strength::M => 1,
        Strength::Q => 2,
        Strength::H => 3,
    }
}

/// Whether the QR encoder finds a symbol that holds `data` at the
/// error-correction level with index `level`.
pub uninterp spec fn qr_accepts(data: Seq<u8>, level: u8) -> bool;

/// Relies on qrcode::QrCode::with_error_correction_level: it builds the
/// smallest symbol that holds `data` at the given level, or reports that none
/// does; which of the two depends on the bytes and the level alone.
#[verifier::external_body]
fn qr_encode(data: &[u8], strength: Strength) -> (r: Result<QrCode, QrError>)
    ensures
        r is Ok <==> qr_accepts(data@, level_index(strength)),
{
    let level = match strength {
        Strength::L => qrcode::EcLevel::L,
        Strength::M => qrcode::EcLevel::M,
        Strength::Q => qrcode::EcLevel::Q,
        Strength::H => qrcode::EcLevel::H,
    };
    QrCode::with_error_correction_level(data, level)
}

/// Encodes `frame` as one symbol at `strength`; an encoder that finds no
/// symbol large enough is an encoding error.
pub fn encode_frame(frame: &[u8], strength: Strength) -> (r: Result<QrCode, TransferError>)
    ensures
        r is Ok <==> qr_accepts(frame@, level_index(strength)),
        r is Err ==> r == Err::<QrCode, TransferError>(TransferError::Encoding),
{
    match qr_encode(frame, strength) {
        Ok(code) => Ok(code),
        Err(_) => Err(TransferError::Encoding),
    }
}

/// The wire form of the envelope of `data` called `name`, split into
/// `block_count` blocks.
pub open spec fn envelope_of(name: Seq<u8>, data: Seq<u8>, block_count: nat) -> Seq<u8> {
    envelope_bytes(name, data.len() as u64, crc32_of(data), block_count as u64)
}

/// Whether every symbol of a transfer can be encoded: the envelope's and
/// each block's.
pub open spec fn all_accepted(
    name: Seq<u8>,
    data: Seq<u8>,
    blocks: Seq<(u64, Seq<u8>)>,
    strength: Strength,
) -> bool {
    qr_accepts(envelope_of(name, data, blocks.len()), level_index(strength)) && forall|k: int|
        0 <= k < blocks.len() ==> qr_accepts(
            frame_of(#[trigger] blocks[k]),
            level_index(strength),
        )
}

/// Turns the file `data` called `name` into the symbols that carry it across
/// the air gap: first the envelope's, then one per block in order, each with
/// the name of the image file it belongs in. Fails as a whole if the
/// configuration is refused or any symbol cannot be encoded; nothing is
/// dropped or cut short.
pub fn encode_as_qr_codes(size_class: u16, strength: Strength, data: &[u8], name: &[u8]) -> (r:
    Result<Vec<Symbol>, TransferError>)
    ensures
        match packetize_spec(data@, size_class, strength) {
            Err(e) => r == Err::<Vec<Symbol>, TransferError>(TransferError::Configuration(e)),
            Ok(blocks) => match r {
                Ok(symbols) => all_accepted(name@, data@, blocks, strength) && symbols@.len()
                    == blocks.len() + 1 && symbols@[0].file_name@ == envelope_file_name(name@)
                    && forall|k: int|
                    0 <= k < blocks.len() ==> (#[trigger] symbols@[k + 1]).file_name@
                        == block_file_name(name@, k as u64),
                Err(e) => e == TransferError::Encoding && !all_accepted(
                    name@,
                    data@,
                    blocks,
                    strength,
                ),
            },
        },
{
    let transfer = match prepare(name, data, size_class, strength) {
        Ok(t) => t,
        Err(e) => return Err(TransferError::Configuration(e)),
    };
    let ghost blocks = packetize_spec(data@, size_class, strength)->Ok_0;
    let header = transfer.envelope.encode();
    let header_code = encode_frame(header.as_slice(), strength)?;
    let mut symbols: Vec<Symbol> = Vec::new();
    symbols.push(Symbol { file_name: envelope_artifact_name(name), code: header_code });
    let mut k: usize = 0;
    while k < transfer.blocks.len()
        invariant
            result_view(Ok(transfer.blocks)) == Ok::<Seq<(u64, Seq<u8>)>, ConfigError>(blocks),
            packetize_spec(data@, size_class, strength) == Ok::<Seq<(u64, Seq<u8>)>, ConfigError>(
                blocks,
            ),
            qr_accepts(envelope_of(name@, data@, blocks.len()), level_index(strength)),
            k <= blocks.len(),
            symbols@.len() == k + 1,
            symbols@[0].file_name@ == envelope_file_name(name@),
            forall|j: int| 0 <= j < k ==> qr_accepts(frame_of(#[trigger] blocks[j]), level_index(strength)),
            forall|j: int| 0 <= j < k ==> (#[trigger] symbols@[j + 1]).file_name@ == block_file_name(name@, j as u64),
        decreases blocks.len() - k,
    {
        let block = &transfer.blocks[k];
        assert(block_view(*block) == blocks[k as int]);
        let frame = block.frame();
        let code = match encode_frame(frame.as_slice(), strength) {
            Ok(code) => code,
            Err(e) => {
                assert(!qr_accepts(frame_of(blocks[k as int]), level_index(strength)));
                return Err(e);
            },
        };
        let file_name = block_artifact_name(name, k as u64);
        symbols.push(Symbol { file_name, code });
        k = k + 1;
    }
    Ok(symbols)
}

} // verus!
