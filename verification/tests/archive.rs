//! End-to-end archive tests: the produced payload inflates back to the
//! original input with a standard DEFLATE reader, and the record fields
//! hold the right checksum and sizes.
use zipper::encode;

fn field_u16(out: &[u8], off: usize) -> u16 {
    (out[off] as u16) | ((out[off + 1] as u16) << 8)
}

fn field_u32(out: &[u8], off: usize) -> u32 {
    (out[off] as u32) | ((out[off + 1] as u32) << 8) | ((out[off + 2] as u32) << 16) | ((out[off
        + 3] as u32)
        << 24)
}

fn payload_of(out: &[u8]) -> Vec<u8> {
    let name_len = field_u16(out, 26) as usize;
    let comp_len = field_u32(out, 18) as usize;
    out[30 + name_len..30 + name_len + comp_len].to_vec()
}

fn round_trip(input: &[u8]) {
    let out = encode(input.to_vec(), b"t".to_vec(), 0, 0);
    let payload = payload_of(&out);
    let back = miniz_oxide::inflate::decompress_to_vec(&payload).expect("payload must inflate");
    assert_eq!(back, input);
    assert_eq!(field_u32(&out, 14), crc32fast::hash(input));
    assert_eq!(field_u32(&out, 22), input.len() as u32);
}

#[test]
fn empty_input_archive() {
    let out = encode(Vec::new(), b"e".to_vec(), 0, 0);
    // Block header (3 bits) plus end-of-block symbol (7 bits) pad to two
    // bytes holding nothing but the end-of-block symbol.
    assert_eq!(field_u32(&out, 22), 0);
    assert_eq!(field_u32(&out, 18), 2);
    let payload = payload_of(&out);
    assert_eq!(payload.len(), 2);
    let back = miniz_oxide::inflate::decompress_to_vec(&payload).expect("payload must inflate");
    assert!(back.is_empty());
    assert_eq!(field_u32(&out, 14), crc32fast::hash(b""));
}

#[test]
fn round_trip_repeated_byte() {
    round_trip(b"AAAAAAAAAA");
}

#[test]
fn round_trip_text() {
    round_trip(b"hello world hello world hello");
}

#[test]
fn round_trip_single_byte() {
    round_trip(b"x");
}

#[test]
fn round_trip_two_bytes() {
    round_trip(b"xy");
}

#[test]
fn round_trip_long_run() {
    // A run long enough to produce the maximum match length of 258.
    let input = vec![b'A'; 300];
    round_trip(&input);
}

#[test]
fn round_trip_mixed_data() {
    let mut input = Vec::new();
    for i in 0..2000usize {
        input.push((i * 7 % 251) as u8);
    }
    input.extend_from_slice(&input.clone()[..500]);
    round_trip(&input);
}

#[test]
fn round_trip_all_byte_values() {
    let mut input: Vec<u8> = (0..=255u8).collect();
    input.extend((0..=255u8).rev());
    input.extend(0..=255u8);
    round_trip(&input);
}

#[test]
fn round_trip_every_distance_bucket() {
    // A block of distinct pairs, then slices copied from various depths, so
    // matches arise across the whole range of coded distances.
    let mut input = Vec::new();
    for i in 0..512usize {
        input.push((i / 2) as u8);
        input.push((255 - i / 2) as u8);
    }
    for d in [1usize, 2, 3, 4, 6, 8, 12, 20, 40, 90, 150, 300, 600, 1000] {
        let start = input.len() - d;
        for j in 0..(d.min(48)) {
            let b = input[start + j];
            input.push(b);
        }
    }
    round_trip(&input);
}

#[test]
fn empty_entry_name() {
    let out = encode(b"abc".to_vec(), Vec::new(), 0, 0);
    assert_eq!(field_u16(&out, 26), 0);
    let payload = payload_of(&out);
    let back = miniz_oxide::inflate::decompress_to_vec(&payload).expect("payload must inflate");
    assert_eq!(back, b"abc");
}

#[test]
fn crc_field_known_value() {
    let out = encode(b"123456789".to_vec(), b"t".to_vec(), 0, 0);
    assert_eq!(field_u32(&out, 14), 0xCBF43926);
}

#[test]
fn header_fields_byte_exact() {
    let input = b"abc";
    let name = b"f.txt";
    let out = encode(input.to_vec(), name.to_vec(), 0x6B32, 0x5699);
    // Local header at offset 0.
    assert_eq!(&out[0..4], &[0x50, 0x4B, 0x03, 0x04]);
    assert_eq!(field_u16(&out, 4), 0x0014);
    assert_eq!(field_u16(&out, 6), 0x0000);
    assert_eq!(field_u16(&out, 8), 0x0008);
    assert_eq!(field_u16(&out, 10), 0x6B32);
    assert_eq!(field_u16(&out, 12), 0x5699);
    assert_eq!(field_u32(&out, 14), crc32fast::hash(input));
    assert_eq!(field_u32(&out, 22), 3);
    assert_eq!(field_u16(&out, 26), 5);
    assert_eq!(field_u16(&out, 28), 0);
    assert_eq!(&out[30..35], name);
    // Central header follows the payload.
    let comp = field_u32(&out, 18) as usize;
    let central = 30 + 5 + comp;
    assert_eq!(&out[central..central + 4], &[0x50, 0x4B, 0x01, 0x02]);
    assert_eq!(field_u16(&out, central + 4), 0x0314);
    assert_eq!(field_u16(&out, central + 6), 0x0014);
    assert_eq!(&out[central + 46..central + 51], name);
    // End record follows the central header.
    let end = central + 46 + 5;
    assert_eq!(&out[end..end + 4], &[0x50, 0x4B, 0x05, 0x06]);
    assert_eq!(field_u16(&out, end + 8), 1);
    assert_eq!(field_u16(&out, end + 10), 1);
    assert_eq!(field_u32(&out, end + 12), 46 + 5);
    assert_eq!(field_u32(&out, end + 16), central as u32);
    assert_eq!(field_u16(&out, end + 20), 0);
    assert_eq!(out.len(), end + 22);
}
