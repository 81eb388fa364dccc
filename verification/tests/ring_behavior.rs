use ringlog::{Logger, Level};

fn bytes(n: usize, f: impl Fn(usize) -> u8) -> Vec<u8> {
    (0..n).map(f).collect()
}

#[test]
fn single_write_fills_prefix() {
    // Capacity 1024, one 100-byte message at offset 0.
    let mut l = Logger::new(1024, Level::Info, false);
    let msg = bytes(100, |i| (i + 1) as u8);
    l.write_bytes(&msg);
    assert_eq!(l.offset(), 100);
    let p = l.payload_vec();
    assert_eq!(&p[..100], &msg[..]);
    assert!(p[100..].iter().all(|&b| b == 0));
}

#[test]
fn second_write_wraps_around() {
    // After 100 bytes, a 1000-byte message wraps: 924 bytes fill the
    // ring to its end, the last 76 land at the start.
    let mut l = Logger::new(1024, Level::Info, false);
    let first = bytes(100, |i| (i + 1) as u8);
    l.write_bytes(&first);
    let second = bytes(1000, |i| (i % 251) as u8);
    l.write_bytes(&second);
    assert_eq!(l.offset(), 76);
    let p = l.payload_vec();
    assert_eq!(&p[100..1024], &second[..924]);
    assert_eq!(&p[..76], &second[924..]);
    assert_eq!(&p[76..100], &first[76..100]);
}

#[test]
fn sequential_writes_concatenate() {
    let mut l = Logger::new(64, Level::Info, false);
    l.write_bytes(b"alpha ");
    l.write_bytes(b"beta\n");
    assert_eq!(l.offset(), 11);
    let p = l.payload_vec();
    assert_eq!(&p[..11], b"alpha beta\n");
    assert!(p[11..].iter().all(|&b| b == 0));
}

#[test]
fn wraparound_tail_and_head() {
    let mut l = Logger::new(8, Level::Info, false);
    l.set_offset(6);
    l.write_bytes(b"abcde");
    assert_eq!(l.offset(), 3);
    let p = l.payload_vec();
    assert_eq!(&p[6..8], b"ab");
    assert_eq!(&p[..3], b"cde");
    assert_eq!(&p[3..6], &[0, 0, 0]);
}

#[test]
fn oversized_message_keeps_last_lap() {
    // 13 bytes into a ring of 8: offset becomes 13 % 8 == 5, the head
    // segment holds the last 5 bytes, the rest is the first lap.
    let mut l = Logger::new(8, Level::Info, false);
    l.write_bytes(b"0123456789abc");
    assert_eq!(l.offset(), 5);
    let p = l.payload_vec();
    assert_eq!(&p[..], b"89abc567");
}

#[test]
fn oversized_two_laps() {
    let mut l = Logger::new(4, Level::Info, false);
    l.write_bytes(b"0123456789a");
    assert_eq!(l.offset(), 3);
    let p = l.payload_vec();
    assert_eq!(&p[..], b"89a3");
}

#[test]
fn write_to_exact_end_leaves_offset_at_capacity() {
    let mut l = Logger::new(8, Level::Info, false);
    l.write_bytes(b"12345678");
    assert_eq!(l.offset(), 8);
    l.write_bytes(b"x");
    assert_eq!(l.offset(), 1);
    let p = l.payload_vec();
    assert_eq!(&p[..1], b"x");
    assert_eq!(&p[1..], b"2345678");
}

#[test]
fn offset_round_trips_through_header() {
    let mut l = Logger::new(16, Level::Info, false);
    l.set_offset(5);
    assert_eq!(l.offset(), 5);
    l.set_offset(16);
    assert_eq!(l.offset(), 16);
    l.set_offset(0);
    assert_eq!(l.offset(), 0);
}

#[test]
fn empty_write_changes_nothing() {
    let mut l = Logger::new(8, Level::Info, false);
    l.write_bytes(b"ab");
    l.write_bytes(b"");
    assert_eq!(l.offset(), 2);
    assert_eq!(&l.payload_vec()[..2], b"ab");
}

#[test]
fn interleaved_writers_never_split_messages() {
    // Two writers' messages, serialized one at a time in an
    // interleaved order: each message lands whole, and the offset is
    // the sum of all lengths.
    let a = [&b"a1 "[..], &b"a22 "[..]];
    let b = [&b"b1 "[..], &b"b22 "[..]];
    let mut l = Logger::new(32, Level::Info, false);
    l.write_bytes(a[0]);
    l.write_bytes(b[0]);
    l.write_bytes(b[1]);
    l.write_bytes(a[1]);
    assert_eq!(l.offset(), 14);
    assert_eq!(&l.payload_vec()[..14], b"a1 b1 b22 a22 ");
}
