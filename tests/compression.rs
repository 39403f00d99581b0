use acs::compression::{decompress, MAX_UNCOMPRESSED_LEN};
use acs::{AcsError, CompressionError};

/// Packs bits least significant first, the way the decompressor reads them.
struct BitWriter {
    bytes: Vec<u8>,
    used: usize,
}

impl BitWriter {
    fn new() -> BitWriter {
        BitWriter { bytes: vec![0], used: 8 }
    }

    fn bit(&mut self, b: bool) {
        if self.used % 8 == 0 {
            self.bytes.push(0);
        }
        if b {
            let last = self.bytes.len() - 1;
            self.bytes[last] |= 1 << (self.used % 8);
        }
        self.used += 1;
    }

    fn bits(&mut self, value: u32, n: u32) {
        for i in 0..n {
            self.bit(value >> i & 1 == 1);
        }
    }

    fn literal(&mut self, byte: u8) {
        self.bit(false);
        self.bits(byte as u32, 8);
    }

    fn end_marker(&mut self) {
        self.bits(0b1111, 4);
        self.bits(0xFFFFF, 20);
    }
}

#[test]
fn test_decompress() {
    let compressed = [0x00, 0x40, 0x00, 0x04, 0x10, 0xD0, 0x90, 0x80,
        0x42, 0xED, 0x98, 0x01, 0xB7, 0xFF, 0xFF, 0xFF,
        0xFF, 0xFF, 0xFF];

    let mut decompressed = vec![];
    decompress(&compressed, &mut decompressed).unwrap();

    let expected = [0x20, 0x00, 0x00, 0x00, 0x01, 0x00, 0x00, 0x00,
        0x00, 0x00, 0x00, 0x00, 0xA8, 0x00, 0x00, 0x00,
        0x00, 0x00, 0x00, 0x00, 0x00, 0x00, 0x00, 0x00,
        0x00, 0x00, 0x00, 0x00, 0x00, 0x00, 0x00, 0x00];

    assert_eq!(expected, &decompressed[..]);
}

#[test]
fn decompress_appends_to_target() {
    let mut w = BitWriter::new();
    w.literal(7);
    w.end_marker();
    let mut out = vec![1u8, 2];
    decompress(&w.bytes, &mut out).unwrap();
    assert_eq!(out, vec![1, 2, 7]);
}

#[test]
fn nonzero_first_byte_is_rejected() {
    let mut out = vec![4u8, 5];
    let r = decompress(&[0x01, 0xFF, 0xFF, 0xFF, 0xFF], &mut out);
    assert_eq!(r, Err(AcsError::InvalidCompressedData(CompressionError::InvalidHeader)));
    assert_eq!(out, vec![4, 5]);
    let r = decompress(&[0x80], &mut out);
    assert_eq!(r, Err(AcsError::InvalidCompressedData(CompressionError::InvalidHeader)));
}

#[test]
fn back_reference_before_start_is_rejected() {
    // A back-reference of class 0 with offset 1 into an empty output.
    let mut out = vec![];
    let r = decompress(&[0x00, 0x01], &mut out);
    assert_eq!(r, Err(AcsError::InvalidCompressedData(CompressionError::InvalidOffset)));
    assert!(out.is_empty());

    // Two literals, then a back-reference of class 1 whose offset is 0x41.
    let mut w = BitWriter::new();
    w.literal(1);
    w.literal(2);
    w.bit(true);
    w.bits(0b01, 2);
    w.bits(0, 9);
    w.end_marker();
    let mut out = vec![];
    let r = decompress(&w.bytes, &mut out);
    assert_eq!(r, Err(AcsError::InvalidCompressedData(CompressionError::InvalidOffset)));
    assert_eq!(out, vec![1, 2]);
}

#[test]
fn overlapping_copy_repeats_a_run() {
    // One literal, then copy five bytes from one byte back: k = 2, extra = 0b01.
    let mut w = BitWriter::new();
    w.literal(0xAB);
    w.bit(true);
    w.bit(false);
    w.bits(0, 6);
    w.bits(0b011, 3);
    w.bits(0b00, 2);
    w.end_marker();
    let mut out = vec![];
    decompress(&w.bytes, &mut out).unwrap();
    assert_eq!(out, vec![0xAB; 6]);
}

#[test]
fn class_three_back_reference_copies_three_bytes_more_than_its_base() {
    // 0x1241 literals, then a class 3 reference with raw offset 0 (subtractor 0x1241), no length bits.
    let mut w = BitWriter::new();
    for i in 0..0x1241u32 {
        w.literal((i % 251) as u8);
    }
    w.bits(0b1111, 4);
    w.bits(0, 20);
    w.bit(false);
    w.end_marker();
    let mut out = vec![];
    decompress(&w.bytes, &mut out).unwrap();
    assert_eq!(out.len(), 0x1241 + 3);
    assert_eq!(&out[0x1241..], &[0, 1, 2]);
}

#[test]
fn overlong_length_prefix_is_rejected() {
    let mut w = BitWriter::new();
    w.literal(1);
    w.bit(true);
    w.bit(false);
    w.bits(0, 6);
    w.bits(0xFFF, 12);
    w.end_marker();
    let mut out = vec![];
    let r = decompress(&w.bytes, &mut out);
    assert_eq!(r, Err(AcsError::InvalidCompressedData(CompressionError::InvalidLength)));
    assert_eq!(out, vec![1]);
}

#[test]
fn output_past_the_ceiling_is_rejected() {
    let mut w = BitWriter::new();
    w.literal(9);
    // Each token copies 2 + 2047 + 2047 = 4096 bytes from one byte back.
    let tokens = MAX_UNCOMPRESSED_LEN / 4096 + 1;
    for _ in 0..tokens {
        w.bit(true);
        w.bit(false);
        w.bits(0, 6);
        w.bits(0x7FF, 11);
        w.bit(false);
        w.bits(0x7FF, 11);
    }
    w.end_marker();
    let mut out = vec![];
    let r = decompress(&w.bytes, &mut out);
    assert_eq!(r, Err(AcsError::InvalidCompressedData(CompressionError::SizeLimitExceeded)));
    assert_eq!(out.len(), 1 + (tokens - 1) * 4096);
}

#[test]
fn output_up_to_the_ceiling_is_accepted() {
    let mut w = BitWriter::new();
    w.literal(9);
    let tokens = (MAX_UNCOMPRESSED_LEN - 1) / 4096;
    for _ in 0..tokens {
        w.bit(true);
        w.bit(false);
        w.bits(0, 6);
        w.bits(0x7FF, 11);
        w.bit(false);
        w.bits(0x7FF, 11);
    }
    w.end_marker();
    let mut out = vec![];
    decompress(&w.bytes, &mut out).unwrap();
    assert_eq!(out.len(), 1 + tokens * 4096);
    assert!(out.iter().all(|&b| b == 9));
}

#[test]
fn empty_stream_reads_as_zero_literals_up_to_the_ceiling() {
    // No bytes at all read as zero bits: a zero header, then literals of zero
    // until the ceiling is reached.
    let mut out = vec![];
    let r = decompress(&[], &mut out);
    assert_eq!(r, Err(AcsError::InvalidCompressedData(CompressionError::SizeLimitExceeded)));
}
