use mcservernap::read_varint;
use mcservernap::write_varint;

fn round_trip(n: i32) -> (Vec<u8>, i32, usize) {
    let mut buf: Vec<u8> = Vec::new();
    write_varint(n, &mut buf);
    let (value, len) = read_varint(&buf).expect("well-formed encoding must read back");
    (buf, value, len)
}

#[test]
fn round_trip_small_values() {
    for n in [0i32, 1, 2, 25, 127] {
        let (buf, value, len) = round_trip(n);
        assert_eq!(value, n);
        assert_eq!(len, buf.len());
        assert_eq!(buf.len(), 1);
    }
}

#[test]
fn round_trip_larger_values() {
    for n in [128i32, 255, 300, 16383, 16384, 25565, 2097151, 2097152, i32::MAX] {
        let (buf, value, len) = round_trip(n);
        assert_eq!(value, n);
        assert_eq!(len, buf.len());
        assert!((1..=5).contains(&buf.len()));
    }
}

#[test]
fn encoding_lengths_match_the_septet_count() {
    let cases: [(i32, usize); 5] =
        [(0, 1), (127, 1), (128, 2), (16384, 3), (2097152, 4)];
    for (n, expected_len) in cases {
        let mut buf: Vec<u8> = Vec::new();
        write_varint(n, &mut buf);
        assert_eq!(buf.len(), expected_len);
    }
    let mut buf: Vec<u8> = Vec::new();
    write_varint(i32::MAX, &mut buf);
    assert_eq!(buf.len(), 5);
}

#[test]
fn known_encodings() {
    let mut buf: Vec<u8> = Vec::new();
    write_varint(0, &mut buf);
    assert_eq!(buf, vec![0x00]);

    let mut buf: Vec<u8> = Vec::new();
    write_varint(300, &mut buf);
    assert_eq!(buf, vec![0xAC, 0x02]);

    let mut buf: Vec<u8> = Vec::new();
    write_varint(25565, &mut buf);
    assert_eq!(buf, vec![0xDD, 0xC7, 0x01]);
}

#[test]
fn negative_values_round_trip_through_five_bytes() {
    let (buf, value, len) = round_trip(-1);
    assert_eq!(buf, vec![0xFF, 0xFF, 0xFF, 0xFF, 0x0F]);
    assert_eq!(value, -1);
    assert_eq!(len, 5);
}

#[test]
fn read_ignores_trailing_bytes() {
    let mut buf: Vec<u8> = Vec::new();
    write_varint(300, &mut buf);
    buf.extend_from_slice(&[0xAB, 0xCD, 0xEF]);
    let (value, len) = read_varint(&buf).unwrap();
    assert_eq!(value, 300);
    assert_eq!(len, 2);
}

#[test]
fn malformed_five_continuation_bytes() {
    assert_eq!(read_varint(&[0x80, 0x80, 0x80, 0x80, 0x80]), None);
}

#[test]
fn malformed_empty_and_truncated() {
    assert_eq!(read_varint(&[]), None);
    assert_eq!(read_varint(&[0x80]), None);
    assert_eq!(read_varint(&[0xFF, 0xFF]), None);
}
