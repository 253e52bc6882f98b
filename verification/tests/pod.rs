use uapi::as_bytes;
use uapi::pod_iter;
use uapi::pod_read;
use uapi::pod_read_init;
use uapi::pod_write;
use uapi::pod_zeroed;

#[test]
fn pod_read_() {
    let buf = [1u8, 0, 0, 0];
    let i: i32 = pod_read(&buf[..]).unwrap();
    assert_eq!(i.to_le(), 1);
}

#[test]
fn pod_read_init_() {
    let buf = [3u8, 0, 0, 0, 0, 0];
    let i: i32 = pod_read_init(&buf[..]).unwrap();
    assert_eq!(i.to_le(), 3);
}

#[test]
fn pod_write_() {
    let buf = [1u8, 0, 0, 0];
    let mut i: i32 = 0;
    pod_write(&buf[..], &mut i).unwrap();
    assert_eq!(i.to_le(), 1);
}

#[test]
fn pod_iter_() {
    let buf = [1u8, 0, 0, 0, 2, 0, 0, 0, 3, 0, 0, 0];
    assert_eq!(
        pod_iter::<i32>(&buf[..])
            .unwrap()
            .into_iter()
            .map(|v| v.to_le())
            .collect::<Vec<_>>(),
        [1, 2, 3]
    );
}

#[test]
fn as_bytes_() {
    assert_eq!(
        as_bytes(&[1u32.to_le(), 2, 3][..]),
        [1, 0, 0, 0, 2, 0, 0, 0, 3, 0, 0, 0]
    );
}

#[test]
fn pod_sizes_mismatch() {
    // Wrong sizes are rejected, never truncated.
    let buf = [1u8, 0, 0];
    assert!(pod_read::<i32>(&buf[..]).is_err());
    assert!(pod_read_init::<i32>(&buf[..]).is_err());
    let mut i: i32 = 7;
    assert!(pod_write(&buf[..], &mut i).is_err());
    assert_eq!(i, 7);
    assert!(pod_iter::<i32>(&buf[..]).is_err());
}

#[test]
fn pod_signed_round_trip() {
    let buf = [0xffu8, 0xff, 0xff, 0xff];
    let i: i32 = pod_read(&buf[..]).unwrap();
    assert_eq!(i, -1);
    let buf = [0x00u8, 0x00, 0x00, 0x80];
    let i: i32 = pod_read(&buf[..]).unwrap();
    assert_eq!(i, i32::MIN);
    let i: i64 = pod_read(&[0xffu8; 8][..]).unwrap();
    assert_eq!(i, -1);
    let i: i8 = pod_read(&[0x80u8][..]).unwrap();
    assert_eq!(i, i8::MIN);
    let i: i16 = pod_read(&[0xfeu8, 0xff][..]).unwrap();
    assert_eq!(i, -2);
}

#[test]
fn pod_zeroed_() {
    let z: u64 = pod_zeroed();
    assert_eq!(z, 0);
    let z: i32 = pod_zeroed();
    assert_eq!(z, 0);
}
