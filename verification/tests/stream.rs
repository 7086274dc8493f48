//! Bit-packing and checksum units: the two bit orderings share one
//! accumulate-and-reverse mechanism, and the bit-serial CRC matches a
//! reference implementation.
use zipper::bits::BitWriter;
use zipper::crc::Crc32;

#[test]
fn code_bits_are_sent_most_significant_first() {
    let mut w = BitWriter::new();
    w.code_bits(0b110, 3);
    w.flush();
    // Bits 1,1,0 in transmission order occupy the low bits of the byte.
    assert_eq!(w.output_vector, vec![0b011]);
}

#[test]
fn extra_bits_are_sent_least_significant_first() {
    let mut w = BitWriter::new();
    w.extra_bits(0b110, 3);
    w.flush();
    // Bits 0,1,1 in transmission order occupy the low bits of the byte.
    assert_eq!(w.output_vector, vec![0b110]);
}

#[test]
fn full_bytes_spill_without_flush() {
    let mut w = BitWriter::new();
    w.extra_bits(0xFF, 8);
    assert_eq!(w.output_vector, vec![0xFF]);
    assert_eq!(w.bit_count, 0);
}

#[test]
fn flush_pads_with_zeros() {
    let mut w = BitWriter::new();
    w.extra_bits(0b1, 1);
    w.flush();
    assert_eq!(w.output_vector, vec![0b1]);
    w.flush();
    assert_eq!(w.output_vector, vec![0b1]);
}

#[test]
fn crc32_known_vector() {
    let mut c = Crc32::new();
    for b in b"123456789" {
        c.push_buf(*b);
    }
    assert_eq!(c.get_crc32(), 0xCBF43926);
}

#[test]
fn crc32_empty_is_zero() {
    let mut c = Crc32::new();
    assert_eq!(c.get_crc32(), 0);
}

#[test]
fn crc32_matches_reference() {
    let samples: Vec<Vec<u8>> = vec![
        b"a".to_vec(),
        b"abc".to_vec(),
        b"hello world".to_vec(),
        vec![0u8; 40],
        (0..=255u8).collect(),
    ];
    for s in samples {
        let mut c = Crc32::new();
        for b in &s {
            c.push_buf(*b);
        }
        assert_eq!(c.get_crc32(), crc32fast::hash(&s));
    }
}
