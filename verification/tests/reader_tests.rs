use imageinfo::{RawBuffer, ReadInterface};

fn patterned(len: usize) -> Vec<u8> {
    let mut v = Vec::with_capacity(len);
    for i in 0..len {
        v.push((i % 251) as u8);
    }
    v
}

#[test]
fn raw_buffer_unsigned_reads() {
    let b = RawBuffer { data: vec![0x01, 0x02, 0x03, 0x04, 0x05, 0x06, 0x07, 0x08] };
    assert_eq!(b.len(), 8);
    assert_eq!(b.read_u8(2), 0x03);
    assert_eq!(b.read_u16_le(0), 0x0201);
    assert_eq!(b.read_u16_be(0), 0x0102);
    assert_eq!(b.read_u32_le(0), 0x04030201);
    assert_eq!(b.read_u32_be(0), 0x01020304);
    assert_eq!(b.read_u64_le(0), 0x0807060504030201);
    assert_eq!(b.read_u64_be(0), 0x0102030405060708);
}

#[test]
fn raw_buffer_signed_reads() {
    let b = RawBuffer { data: vec![0xFF, 0xFF, 0xFF, 0xFF, 0xFF, 0xFF, 0xFF, 0xFF] };
    assert_eq!(b.read_i8(0), -1);
    assert_eq!(b.read_i16_le(0), -1);
    assert_eq!(b.read_i16_be(0), -1);
    assert_eq!(b.read_i32_le(0), -1);
    assert_eq!(b.read_i32_be(0), -1);
    assert_eq!(b.read_i64_le(0), -1);
    assert_eq!(b.read_i64_be(0), -1);
    let c = RawBuffer { data: vec![0x80, 0x00, 0x00, 0x00] };
    assert_eq!(c.read_i8(0), -128);
    assert_eq!(c.read_i16_be(0), i16::MIN);
    assert_eq!(c.read_i16_le(0), 0x80);
    assert_eq!(c.read_i32_be(0), i32::MIN);
}

#[test]
fn raw_buffer_new_and_piece() {
    let z = RawBuffer::new(5);
    assert_eq!(z.len(), 5);
    assert_eq!(z.data, vec![0u8; 5]);
    let b = RawBuffer { data: vec![10, 20, 30, 40] };
    assert_eq!(b.piece(1, 2), &[20u8, 30u8][..]);
}

#[test]
fn raw_buffer_cmp() {
    let b = RawBuffer { data: vec![0x42, 0x4D, 0x00] };
    assert!(b.cmp(0, 2, b"BM"));
    assert!(!b.cmp(0, 2, b"BA"));
    assert!(!b.cmp(0, 3, b"BM"));
    // an out-of-range comparison is unequal, never a fault
    assert!(!b.cmp(2, 5, b"BM\x00\x00\x00"));
    assert!(b.cmp_any_of(0, 2, vec![&b"XX"[..], &b"BM"[..]]));
    assert!(!b.cmp_any_of(0, 2, vec![&b"XX"[..], &b"YY"[..]]));
    let empty: Vec<&[u8]> = Vec::new();
    assert!(!b.cmp_any_of(0, 2, empty));
}

#[test]
fn raw_buffer_read_str() {
    let b = RawBuffer { data: vec![b'a', b'b', b'c', 0xFF, b'd'] };
    assert_eq!(b.read_str(0, 3), "abc");
    // an invalid byte decodes to the replacement character, not a fault
    assert_eq!(b.read_str(2, 3), "c\u{FFFD}d");
    assert_eq!(b.read_str(0, 0), "");
}

#[test]
fn read_interface_within_cache() {
    let data = patterned(3000);
    let mut ri = ReadInterface::from_reader(data.clone(), 3000);
    let b = ri.read(5, 10).unwrap();
    assert_eq!(&b.data[..], &data[5..15]);
    let b = ri.read(0, 1024).unwrap();
    assert_eq!(&b.data[..], &data[0..1024]);
}

#[test]
fn read_interface_combined_tail() {
    // starts inside the cache, small uncached remainder: the cached prefix
    // is combined with a fresh read
    let data = patterned(3000);
    let mut ri = ReadInterface::from_reader(data.clone(), 3000);
    let b = ri.read(1000, 100).unwrap();
    assert_eq!(&b.data[..], &data[1000..1100]);
}

#[test]
fn read_interface_bypass() {
    // a large tail bypasses the cache entirely
    let data = patterned(3000);
    let mut ri = ReadInterface::from_reader(data.clone(), 3000);
    let b = ri.read(1000, 600).unwrap();
    assert_eq!(&b.data[..], &data[1000..1600]);
    let b = ri.read(2000, 1000).unwrap();
    assert_eq!(&b.data[..], &data[2000..3000]);
}

#[test]
fn read_interface_short_stream() {
    let data = vec![7u8; 12];
    let mut ri = ReadInterface::from_reader(data.clone(), 12);
    let b = ri.read(0, 12).unwrap();
    assert_eq!(b.data, data);
}
