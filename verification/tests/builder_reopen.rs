use ringlog::{Builder, Logger, Level, Error, MIN_SIZE, HEADER_SIZE, KB, MB};

#[test]
fn size_constants() {
    assert_eq!(KB, 1024);
    assert_eq!(MB, 1024 * 1024);
    assert_eq!(MIN_SIZE, 512 * 1024);
    assert_eq!(HEADER_SIZE, 8);
}

#[test]
fn builder_defaults() {
    let l = Builder::new().build();
    assert_eq!(l.size(), MIN_SIZE);
    assert_eq!(l.offset(), 0);
    assert!(l.enabled(Level::Info));
    assert!(!l.enabled(Level::Debug));
}

#[test]
fn builder_clamps_small_size() {
    let l = Builder::new().size(10).build();
    assert_eq!(l.size(), MIN_SIZE);
}

#[test]
fn builder_keeps_large_size() {
    let l = Builder::new().size(MIN_SIZE + 5).build();
    assert_eq!(l.size(), MIN_SIZE + 5);
}

#[test]
fn fresh_build_resets_offset_and_content() {
    // Create mode starts from a zeroed region with offset 0, whatever
    // any earlier handle wrote.
    let mut old = Builder::new().build();
    old.write_bytes(b"left-over content\n");
    assert!(old.offset() > 0);
    let fresh = Builder::new().build();
    assert_eq!(fresh.offset(), 0);
    assert!(fresh.payload_vec().iter().all(|&b| b == 0));
}

#[test]
fn reopen_preserves_offset_and_payload() {
    let mut l = Builder::new().level(Level::Debug).build();
    l.log(Level::Info, b"9.5s", b"11", b"m.rs:3", b"core", b"first");
    l.write_bytes(b"raw tail bytes");
    let off = l.offset();
    let payload = l.payload_vec();
    let bytes = l.into_region();
    let r = Builder::new().open(bytes).expect("reopen should succeed");
    assert_eq!(r.offset(), off);
    assert_eq!(r.payload_vec(), payload);
    assert_eq!(r.size(), MIN_SIZE);
}

#[test]
fn open_rejects_offset_beyond_capacity() {
    let mut bytes = vec![0u8; MIN_SIZE + HEADER_SIZE];
    let bad = (MIN_SIZE as u64) + 1;
    bytes[..8].copy_from_slice(&bad.to_le_bytes());
    let r = Builder::new().open(bytes);
    assert!(matches!(r, Err(Error::Any(_))));
}

#[test]
fn open_accepts_offset_equal_to_capacity() {
    let mut bytes = vec![0u8; MIN_SIZE + HEADER_SIZE];
    bytes[..8].copy_from_slice(&(MIN_SIZE as u64).to_le_bytes());
    let r = Builder::new().open(bytes).expect("offset == capacity is valid");
    assert_eq!(r.offset(), MIN_SIZE);
}

#[test]
fn open_zero_extends_short_region() {
    // Reopening resizes the region to the configured capacity,
    // zero-filling what the extension adds.
    let mut bytes = vec![0u8; 100];
    bytes[..8].copy_from_slice(&3u64.to_le_bytes());
    bytes[8] = 7;
    bytes[9] = 8;
    bytes[10] = 9;
    let r = Builder::new().open(bytes).expect("open should succeed");
    assert_eq!(r.size(), MIN_SIZE);
    assert_eq!(r.offset(), 3);
    let p = r.payload_vec();
    assert_eq!(&p[..3], &[7, 8, 9]);
    assert!(p[3..].iter().all(|&b| b == 0));
}

#[test]
fn open_cuts_long_region() {
    let mut bytes = vec![5u8; MIN_SIZE + HEADER_SIZE + 1000];
    bytes[..8].copy_from_slice(&0u64.to_le_bytes());
    let r = Builder::new().open(bytes).expect("open should succeed");
    assert_eq!(r.size(), MIN_SIZE);
    assert_eq!(r.offset(), 0);
    assert!(r.payload_vec().iter().all(|&b| b == 5));
}

#[test]
fn open_region_preserves_custom_region() {
    let mut region = vec![0u8; HEADER_SIZE + 4];
    region[..8].copy_from_slice(&2u64.to_le_bytes());
    region[8..].copy_from_slice(b"wxyz");
    let l = Logger::open_region(region, Level::Info, true).expect("valid region");
    assert_eq!(l.size(), 4);
    assert_eq!(l.offset(), 2);
    assert_eq!(&l.payload_vec()[..], b"wxyz");
}

#[test]
fn open_region_rejects_short_region() {
    let r = Logger::open_region(vec![0u8; 5], Level::Info, false);
    assert!(matches!(r, Err(Error::Any(_))));
}

#[test]
fn error_describe_carries_message() {
    let r = Logger::open_region(vec![0u8; 5], Level::Info, false);
    match r {
        Err(e) => {
            let s = e.describe();
            assert!(!s.is_empty());
        }
        Ok(_) => panic!("expected an error"),
    }
}

#[test]
fn reopen_then_write_continues_at_offset() {
    let mut l = Builder::new().build();
    l.write_bytes(b"abc");
    let bytes = l.into_region();
    let mut r = Builder::new().open(bytes).expect("reopen");
    r.write_bytes(b"def");
    assert_eq!(r.offset(), 6);
    assert_eq!(&r.payload_vec()[..6], b"abcdef");
}

#[test]
fn capacity_reports_clamped_size() {
    assert_eq!(Builder::new().capacity(), MIN_SIZE);
    assert_eq!(Builder::new().size(10).capacity(), MIN_SIZE);
    assert_eq!(Builder::new().size(MIN_SIZE + 7).capacity(), MIN_SIZE + 7);
    let l = Builder::new().size(99).build();
    assert_eq!(l.size(), Builder::new().size(99).capacity());
}
