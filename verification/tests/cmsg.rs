use uapi::cmsg_read;
use uapi::cmsg_space;
use uapi::cmsg_write;
use uapi::cmsghdr;
use uapi::Errno;
use uapi::WriteCursor;

fn hdr(level: i32, ty: i32) -> cmsghdr {
    cmsghdr {
        cmsg_level: level,
        cmsg_type: ty,
        cmsg_len: 0,
    }
}

#[test]
fn space_values() {
    // space(n) == align(header) + align(n), with an 8-byte boundary and
    // a 16-byte header.
    assert_eq!(cmsg_space(0), 16);
    assert_eq!(cmsg_space(1), 24);
    assert_eq!(cmsg_space(8), 24);
    assert_eq!(cmsg_space(9), 32);
    assert_eq!(cmsg_space(11), 32);
}

#[test]
fn space_monotone_samples() {
    let mut prev = cmsg_space(0);
    for n in 1..64usize {
        let next = cmsg_space(n);
        assert!(next >= prev);
        prev = next;
    }
}

#[test]
fn round_trip_single() {
    let mut cur = WriteCursor::new(vec![0u8; 64]);
    let space = cmsg_write(&mut cur, hdr(1, 2), b"hello world").unwrap();
    assert_eq!(space, 32);
    assert_eq!(cur.position(), 32);
    let buf = cur.into_vec();
    let mut reader = &buf[..32];
    let (consumed, h, data) = cmsg_read(&mut reader).unwrap();
    assert_eq!(consumed, 32);
    assert_eq!(h.cmsg_level, 1);
    assert_eq!(h.cmsg_type, 2);
    assert_eq!(h.cmsg_len, 16 + 11);
    assert_eq!(data, b"hello world");
    assert!(reader.is_empty());
}

#[test]
fn two_records_in_order() {
    let mut cur = WriteCursor::new(vec![0u8; 96]);
    let s1 = cmsg_write(&mut cur, hdr(1, 10), b"hello world").unwrap();
    let s2 = cmsg_write(&mut cur, hdr(2, 20), b"ayo hol up").unwrap();
    assert_eq!(s1, 32);
    assert_eq!(s2, 32);
    let buf = cur.into_vec();
    let mut reader = &buf[..64];
    let (c1, h1, d1) = cmsg_read(&mut reader).unwrap();
    assert_eq!((c1, h1.cmsg_level, h1.cmsg_type), (32, 1, 10));
    assert_eq!(d1, b"hello world");
    let (c2, h2, d2) = cmsg_read(&mut reader).unwrap();
    assert_eq!((c2, h2.cmsg_level, h2.cmsg_type), (32, 2, 20));
    assert_eq!(d2, b"ayo hol up");
    assert!(reader.is_empty());
}

#[test]
fn boundary_exact_fit_succeeds() {
    // A payload that exactly fills the remaining buffer succeeds ...
    let mut cur = WriteCursor::new(vec![0u8; 32]);
    assert_eq!(cmsg_write(&mut cur, hdr(0, 0), &[7u8; 16]).unwrap(), 32);
    assert_eq!(cur.remaining(), 0);
    // ... and one more byte fails with "invalid argument", never
    // truncates.
    let mut cur = WriteCursor::new(vec![0u8; 32]);
    assert_eq!(
        cmsg_write(&mut cur, hdr(0, 0), &[7u8; 17]),
        Err(Errno(22))
    );
    assert_eq!(cur.position(), 0);
    assert_eq!(cur.into_vec(), vec![0u8; 32]);
}

#[test]
fn read_rejects_short_buffer() {
    let buf = [0u8; 15];
    let mut reader = &buf[..];
    assert_eq!(cmsg_read(&mut reader).map(|_| ()), Err(Errno(22)));
    assert_eq!(reader.len(), 15);
}

#[test]
fn read_rejects_bad_lengths() {
    // A header whose declared length is a negative/huge sentinel when
    // reinterpreted must be rejected rather than read out of bounds.
    let mut cur = WriteCursor::new(vec![0u8; 64]);
    cmsg_write(&mut cur, hdr(0, 0), b"abc").unwrap();
    let mut buf = cur.into_vec();

    // cmsg_len = u64::MAX (the bit pattern of -1).
    for b in &mut buf[8..16] {
        *b = 0xff;
    }
    let mut reader = &buf[..];
    assert!(cmsg_read(&mut reader).is_err());
    assert_eq!(reader.len(), 64);

    // cmsg_len smaller than the header itself.
    buf[8..16].copy_from_slice(&15u64.to_le_bytes());
    let mut reader = &buf[..];
    assert!(cmsg_read(&mut reader).is_err());

    // cmsg_len beyond the end of the buffer.
    buf[8..16].copy_from_slice(&1000u64.to_le_bytes());
    let mut reader = &buf[..];
    assert!(cmsg_read(&mut reader).is_err());
}
