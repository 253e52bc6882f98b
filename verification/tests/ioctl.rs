#![allow(non_snake_case)]

use uapi::c;
use uapi::_IO;
use uapi::_IOC;
use uapi::_IOC_DIR;
use uapi::_IOC_NR;
use uapi::_IOC_SIZE;
use uapi::_IOC_TYPE;
use uapi::_IOR;
use uapi::_IOW;
use uapi::_IOWR;
use uapi::ioctl::_IOC_READ;
use uapi::ioctl::_IOC_WRITE;

#[test]
fn IOC() {
    assert_eq!(
        2149668140,
        _IOC(_IOC_READ, c::UINPUT_IOCTL_BASE as _, 44, 33)
    );
}

#[test]
fn IO() {
    assert_eq!(16658, _IO(b'A' as _, 0x12));
}

#[test]
fn IOR() {
    assert_eq!(2147767597, _IOR::<c::c_uint>(c::UINPUT_IOCTL_BASE as _, 45));
}

#[test]
fn IOW() {
    assert_eq!(1074025828, _IOW::<c::c_int>(c::UINPUT_IOCTL_BASE as _, 100));
}

#[test]
fn IOWR() {
    assert_eq!(3221776773, _IOWR::<c::size_t>(b'i' as _, 0x85))
}

#[test]
fn IOC_DIR() {
    assert_eq!(_IOC_READ, _IOC_DIR(_IOC(_IOC_READ, b'a' as _, 65, 22)));
    assert_eq!(_IOC_WRITE, _IOC_DIR(_IOC(_IOC_WRITE, b'a' as _, 65, 22)));
}

#[test]
fn IOC_TYPE() {
    assert_eq!(b'a' as u64, _IOC_TYPE(_IOC(_IOC_READ, b'a' as _, 65, 22)));
}

#[test]
fn IOC_NR() {
    assert_eq!(65, _IOC_NR(_IOC(_IOC_READ, b'a' as _, 65, 22)));
}

#[test]
fn IOC_SIZE() {
    assert_eq!(22, _IOC_SIZE(_IOC(_IOC_READ, b'a' as _, 65, 22)));
}

#[test]
fn IOC_bsd_fields() {
    // BSD-style layout: length in bits 16..29, group in bits 8..16.
    let x: u64 = (21 << 16) | (0x40 << 8) | 7;
    assert_eq!(21, uapi::IOCPARM_LEN(x));
    assert_eq!(0x40, uapi::IOCGROUP(x));
    assert_eq!((0x40 << 8) | 7, uapi::IOCBASECMD(x));
}
