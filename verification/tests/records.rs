//! Header construction and the DOS time/date packing, plus the window
//! search's first-match (largest-distance) tie-break.
use zipper::header::Header;
use zipper::lz::match_check;
use zipper::time::dos_date;
use zipper::time::dos_time;
use zipper::time::time_data;

#[test]
fn header_build_is_idempotent() {
    let h = Header::new(10, 5, b"x.bin".to_vec(), 0xDEADBEEF, 0x1234, 0x4321);
    assert_eq!(h.clone().local_header(), h.clone().local_header());
    assert_eq!(h.clone().central_header(), h.clone().central_header());
    assert_eq!(h.clone().end_header(46, 35), h.clone().end_header(46, 35));
}

#[test]
fn local_header_layout() {
    let h = Header::new(0x11223344, 0x0A0B0C0D, b"ab".to_vec(), 0x55667788, 0x1234, 0x4321);
    let bytes = h.local_header();
    let expected: Vec<u8> = vec![
        0x50, 0x4B, 0x03, 0x04, // signature
        0x14, 0x00, // version needed
        0x00, 0x00, // flags
        0x08, 0x00, // method: deflate
        0x34, 0x12, // time
        0x21, 0x43, // date
        0x88, 0x77, 0x66, 0x55, // crc-32
        0x0D, 0x0C, 0x0B, 0x0A, // compressed size
        0x44, 0x33, 0x22, 0x11, // uncompressed size
        0x02, 0x00, // name length
        0x00, 0x00, // extra length
        b'a', b'b',
    ];
    assert_eq!(bytes, expected);
}

#[test]
fn central_header_layout() {
    let h = Header::new(3, 2, b"f".to_vec(), 0x01020304, 0, 0);
    let bytes = h.central_header();
    assert_eq!(bytes.len(), 47);
    assert_eq!(&bytes[0..4], &[0x50, 0x4B, 0x01, 0x02]);
    assert_eq!(&bytes[4..6], &[0x14, 0x03]);
    assert_eq!(&bytes[6..8], &[0x14, 0x00]);
    assert_eq!(&bytes[16..20], &[0x04, 0x03, 0x02, 0x01]);
    assert_eq!(&bytes[20..24], &[0x02, 0x00, 0x00, 0x00]);
    assert_eq!(&bytes[24..28], &[0x03, 0x00, 0x00, 0x00]);
    assert_eq!(bytes[46], b'f');
}

#[test]
fn end_header_layout() {
    let h = Header::new(0, 0, Vec::new(), 0, 0, 0);
    let bytes = h.end_header(0x0102, 0x0304);
    let expected: Vec<u8> = vec![
        0x50, 0x4B, 0x05, 0x06, 0x00, 0x00, 0x00, 0x00, 0x01, 0x00, 0x01, 0x00, 0x02, 0x01, 0x00,
        0x00, 0x04, 0x03, 0x00, 0x00, 0x00, 0x00,
    ];
    assert_eq!(bytes, expected);
}

#[test]
fn dos_time_packing() {
    assert_eq!(dos_time(23, 59, 58), (23 << 11) | (59 << 5) | 29);
    assert_eq!(dos_time(0, 0, 0), 0);
    assert_eq!(dos_time(12, 30, 7), (12 << 11) | (30 << 5) | 3);
}

#[test]
fn dos_date_packing() {
    assert_eq!(dos_date(2024, 12, 31), ((2024 - 1980) << 9) | (12 << 5) | 31);
    assert_eq!(dos_date(1980, 1, 1), (1 << 5) | 1);
    // Years before the DOS epoch are pinned to it.
    assert_eq!(dos_date(1969, 12, 31), (12 << 5) | 31);
}

#[test]
fn time_data_returns_packed_fields() {
    // The exact values depend on the machine's time zone; the fields must
    // still be well-formed packings.
    let (hms, ymd) = time_data(1431648000);
    assert!(hms >> 11 < 24);
    assert!((hms >> 5) & 0x3F < 60);
    let month = (ymd >> 5) & 0x0F;
    let day = ymd & 0x1F;
    assert!((1..=12).contains(&month));
    assert!((1..=31).contains(&day));
}

#[test]
fn match_check_prefers_largest_distance() {
    let window: Vec<u8> = vec![1, 2, 3, 1, 2];
    let check: Vec<u8> = vec![1, 2];
    // Both occurrences match; the scan returns the first, i.e. the
    // farthest back.
    assert_eq!(match_check(&window, &check), 4);
    let absent: Vec<u8> = vec![9, 9];
    assert_eq!(match_check(&window, &absent), -1);
}
