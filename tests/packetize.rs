use airgap::capacity::{capacity, ConfigError, Strength, SIZE_CLASS_30};
use airgap::packet::{packetize, packetize_with_capacity, Block};
use airgap::varint::MAX_VARINT_LEN;

fn sample(len: usize) -> Vec<u8> {
    (0..len).map(|i| (i * 31 % 251) as u8).collect()
}

fn varint_len(v: u64) -> usize {
    let mut n = 1;
    let mut v = v >> 7;
    while v > 0 {
        n += 1;
        v >>= 7;
    }
    n
}

fn concat(blocks: &[Block]) -> Vec<u8> {
    blocks.iter().flat_map(|b| b.payload.iter().copied()).collect()
}

#[test]
fn capacity_table_for_class_30() {
    assert_eq!(capacity(SIZE_CLASS_30, Strength::L), Ok(1732));
    assert_eq!(capacity(SIZE_CLASS_30, Strength::M), Ok(1370));
    assert_eq!(capacity(SIZE_CLASS_30, Strength::Q), Ok(982));
    assert_eq!(capacity(SIZE_CLASS_30, Strength::H), Ok(742));
}

#[test]
fn capacity_ordering() {
    let c = |s| capacity(SIZE_CLASS_30, s).unwrap();
    assert!(c(Strength::L) > c(Strength::M));
    assert!(c(Strength::M) > c(Strength::Q));
    assert!(c(Strength::Q) > c(Strength::H));
}

#[test]
fn unsupported_size_class_is_refused() {
    assert_eq!(capacity(40, Strength::L), Err(ConfigError::UnsupportedSizeClass));
    assert_eq!(
        packetize(&sample(10), 10, Strength::M),
        Err(ConfigError::UnsupportedSizeClass)
    );
}

#[test]
fn capacity_too_small_is_refused() {
    assert_eq!(
        packetize_with_capacity(&sample(100), MAX_VARINT_LEN),
        Err(ConfigError::CapacityTooSmall)
    );
    assert_eq!(packetize_with_capacity(&[], 3), Err(ConfigError::CapacityTooSmall));
    let blocks = packetize_with_capacity(&sample(100), MAX_VARINT_LEN + 1).unwrap();
    assert_eq!(blocks.len(), 10);
    assert_eq!(concat(&blocks), sample(100));
}

#[test]
fn three_thousand_bytes_at_m() {
    let data = sample(3000);
    let blocks = packetize(&data, SIZE_CLASS_30, Strength::M).unwrap();
    assert_eq!(blocks.len(), 3);
    let numbers: Vec<u64> = blocks.iter().map(|b| b.sequence_number).collect();
    assert_eq!(numbers, vec![0, 1, 2]);
    let lens: Vec<usize> = blocks.iter().map(|b| b.payload.len()).collect();
    assert_eq!(lens, vec![1369, 1369, 262]);
    assert_eq!(lens.iter().sum::<usize>(), 3000);
    for b in &blocks {
        assert!(varint_len(b.sequence_number) + b.payload.len() <= 1370);
    }
}

#[test]
fn empty_input_gives_no_blocks() {
    for s in [Strength::L, Strength::M, Strength::Q, Strength::H] {
        assert_eq!(packetize(&[], SIZE_CLASS_30, s), Ok(vec![]));
    }
}

#[test]
fn round_trip_every_strength() {
    for len in [1usize, 741, 742, 1369, 1370, 5000, 12345] {
        let data = sample(len);
        for s in [Strength::L, Strength::M, Strength::Q, Strength::H] {
            let blocks = packetize(&data, SIZE_CLASS_30, s).unwrap();
            assert_eq!(concat(&blocks), data);
        }
    }
}

#[test]
fn sequence_numbers_have_no_gaps() {
    let blocks = packetize(&sample(20000), SIZE_CLASS_30, Strength::H).unwrap();
    for (i, b) in blocks.iter().enumerate() {
        assert_eq!(b.sequence_number, i as u64);
        assert!(!b.payload.is_empty());
    }
}

#[test]
fn frames_fit_the_capacity() {
    let cap = capacity(SIZE_CLASS_30, Strength::Q).unwrap();
    let blocks = packetize(&sample(300_000), SIZE_CLASS_30, Strength::Q).unwrap();
    assert!(blocks.len() > 128);
    for b in &blocks {
        let frame = b.frame();
        assert!(frame.len() <= cap);
        assert_eq!(varint_len(b.sequence_number) + b.payload.len(), frame.len());
    }
}

#[test]
fn packetize_is_deterministic() {
    let data = sample(9999);
    let a = packetize(&data, SIZE_CLASS_30, Strength::L).unwrap();
    let b = packetize(&data, SIZE_CLASS_30, Strength::L).unwrap();
    assert_eq!(a, b);
    let fa: Vec<Vec<u8>> = a.iter().map(|x| x.frame()).collect();
    let fb: Vec<Vec<u8>> = b.iter().map(|x| x.frame()).collect();
    assert_eq!(fa, fb);
}

#[test]
fn block_128_is_one_byte_shorter_than_block_127() {
    let data = sample(742 * 131);
    let blocks = packetize(&data, SIZE_CLASS_30, Strength::H).unwrap();
    assert!(blocks.len() > 129);
    assert_eq!(blocks[127].payload.len(), 741);
    assert_eq!(blocks[128].payload.len(), 740);
    assert_eq!(blocks[127].payload.len(), blocks[128].payload.len() + 1);
    assert_eq!(concat(&blocks), data);
}

#[test]
fn frame_starts_with_the_encoded_number() {
    let b = Block { sequence_number: 300, payload: vec![7, 8, 9] };
    assert_eq!(b.frame(), vec![0xAC, 0x02, 7, 8, 9]);
    let b = Block { sequence_number: 5, payload: vec![1] };
    assert_eq!(b.frame(), vec![5, 1]);
    let b = Block { sequence_number: 127, payload: vec![] };
    assert_eq!(b.frame(), vec![0x7F]);
    let b = Block { sequence_number: 128, payload: vec![] };
    assert_eq!(b.frame(), vec![0x80, 0x01]);
}
