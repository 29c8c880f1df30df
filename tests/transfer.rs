use airgap::capacity::{ConfigError, Strength, SIZE_CLASS_30};
use airgap::envelope::FileEnvelope;
use airgap::transfer::{
    block_artifact_name, encode_as_qr_codes, encode_frame, envelope_artifact_name, prepare,
    TransferError,
};

#[test]
fn checksum_is_standard_crc32() {
    let e = FileEnvelope::describe(b"check.txt", b"123456789", 1);
    assert_eq!(e.checksum, 0xCBF4_3926);
    assert_eq!(e.total_size, 9);
    assert_eq!(e.name, b"check.txt".to_vec());
    assert_eq!(e.block_count, 1);
    let empty = FileEnvelope::describe(b"none", b"", 0);
    assert_eq!(empty.checksum, 0);
}

#[test]
fn envelope_wire_form() {
    let e = FileEnvelope { name: b"ab".to_vec(), total_size: 300, checksum: 1, block_count: 2 };
    assert_eq!(
        e.encode(),
        vec![0x0A, 2, b'a', b'b', 0x10, 0xAC, 0x02, 0x18, 1, 0x20, 2]
    );
}

#[test]
fn prepare_fills_block_count_after_split() {
    let data: Vec<u8> = (0..3000u32).map(|i| i as u8).collect();
    let t = prepare(b"f.bin", &data, SIZE_CLASS_30, Strength::M).unwrap();
    assert_eq!(t.blocks.len(), 3);
    assert_eq!(t.envelope.block_count, 3);
    assert_eq!(t.envelope.total_size, 3000);
    assert_eq!(t.envelope.name, b"f.bin".to_vec());
    let empty = prepare(b"e", b"", SIZE_CLASS_30, Strength::M).unwrap();
    assert_eq!(empty.envelope.block_count, 0);
    assert!(empty.blocks.is_empty());
    assert_eq!(
        prepare(b"e", b"x", 20, Strength::M),
        Err(ConfigError::UnsupportedSizeClass)
    );
}

#[test]
fn artifact_names() {
    assert_eq!(block_artifact_name(b"file.txt", 0), b"file.txt-0.qr.png".to_vec());
    assert_eq!(block_artifact_name(b"file.txt", 12), b"file.txt-12.qr.png".to_vec());
    assert_eq!(
        block_artifact_name(b"a", 18446744073709551615),
        b"a-18446744073709551615.qr.png".to_vec()
    );
    assert_eq!(envelope_artifact_name(b"file.txt"), b"file.txt.header.qr.png".to_vec());
}

#[test]
fn encoder_rejects_oversized_frame() {
    let big = vec![0x55u8; 3000];
    assert!(matches!(encode_frame(&big, Strength::H), Err(TransferError::Encoding)));
    assert!(encode_frame(&big[..100], Strength::H).is_ok());
}

#[test]
fn qr_codes_for_a_small_file() {
    let data: Vec<u8> = (0..2000u32).map(|i| (i % 256) as u8).collect();
    let symbols = encode_as_qr_codes(SIZE_CLASS_30, Strength::L, &data, b"doc.pdf").unwrap();
    assert_eq!(symbols.len(), 3);
    assert_eq!(symbols[0].file_name, b"doc.pdf.header.qr.png".to_vec());
    assert_eq!(symbols[1].file_name, b"doc.pdf-0.qr.png".to_vec());
    assert_eq!(symbols[2].file_name, b"doc.pdf-1.qr.png".to_vec());
}

#[test]
fn qr_codes_refuse_unknown_size_class() {
    let r = encode_as_qr_codes(40, Strength::L, b"abc", b"x");
    assert!(matches!(
        r,
        Err(TransferError::Configuration(ConfigError::UnsupportedSizeClass))
    ));
}

#[test]
fn qr_codes_fail_whole_when_a_symbol_overflows() {
    let long_name = vec![b'n'; 3000];
    let r = encode_as_qr_codes(SIZE_CLASS_30, Strength::H, b"payload", &long_name);
    assert!(matches!(r, Err(TransferError::Encoding)));
}
