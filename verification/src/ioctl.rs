//! ioctl request-number arithmetic.
//!
//! An ioctl request number packs four bit fields — direction, type
//! (group), sequence number, and argument size — into one `u64`.  The
//! field widths and the direction codes here are the ones used by the
//! x86/arm family of Linux ports; the `IOCPARM_*` helpers use the
//! BSD-style layout.

#![allow(non_snake_case)]

use crate::pod::Pod;
use vstd::prelude::*;

verus! {

pub const _IOC_NONE: u64 = 0;

pub const _IOC_WRITE: u64 = 1;

pub const _IOC_READ: u64 = 2;

pub const _IOC_NRBITS: u64 = 8;

pub const _IOC_TYPEBITS: u64 = 8;

pub const _IOC_SIZEBITS: u64 = 14;

pub const _IOC_DIRBITS: u64 = 2;

pub const _IOC_NRSHIFT: u64 = 0;

pub const _IOC_TYPESHIFT: u64 = _IOC_NRSHIFT + _IOC_NRBITS;

pub const _IOC_SIZESHIFT: u64 = _IOC_TYPESHIFT + _IOC_TYPEBITS;

pub const _IOC_DIRSHIFT: u64 = _IOC_SIZESHIFT + _IOC_SIZEBITS;

pub const _IOC_NRMASK: u64 = 0xff;

pub const _IOC_TYPEMASK: u64 = 0xff;

pub const _IOC_SIZEMASK: u64 = 0x3fff;

pub const _IOC_DIRMASK: u64 = 0x3;

/// The request number with `dir`, `ty`, `nr` and `size` packed into
/// their bit fields.
pub open spec fn ioc_spec(dir: u64, ty: u64, nr: u64, size: u64) -> u64 {
    (dir << _IOC_DIRSHIFT) | (ty << _IOC_TYPESHIFT) | (nr << _IOC_NRSHIFT) | (size
        << _IOC_SIZESHIFT)
}

/// Packs the four fields of an ioctl request number.
pub fn _IOC(dir: u64, ty: u64, nr: u64, size: u64) -> (r: u64)
    ensures
        r == ioc_spec(dir, ty, nr, size),
{
    (dir << _IOC_DIRSHIFT) | (ty << _IOC_TYPESHIFT) | (nr << _IOC_NRSHIFT) | (size
        << _IOC_SIZESHIFT)
}

/// Request number for an ioctl that carries no argument.
pub fn _IO(ty: u64, nr: u64) -> (r: u64)
    ensures
        r == ioc_spec(_IOC_NONE, ty, nr, 0),
{
    _IOC(_IOC_NONE, ty, nr, 0)
}

/// Request number for an ioctl that reads an argument of type `T`.
pub fn _IOR<T: Pod>(ty: u64, nr: u64) -> (r: u64)
    ensures
        r == ioc_spec(_IOC_READ, ty, nr, T::size_spec() as u64),
{
    _IOC(_IOC_READ, ty, nr, T::size() as u64)
}

/// Request number for an ioctl that writes an argument of type `T`.
pub fn _IOW<T: Pod>(ty: u64, nr: u64) -> (r: u64)
    ensures
        r == ioc_spec(_IOC_WRITE, ty, nr, T::size_spec() as u64),
{
    _IOC(_IOC_WRITE, ty, nr, T::size() as u64)
}

/// Request number for an ioctl that reads and writes an argument of
/// type `T`.
pub fn _IOWR<T: Pod>(ty: u64, nr: u64) -> (r: u64)
    ensures
        r == ioc_spec(_IOC_READ | _IOC_WRITE, ty, nr, T::size_spec() as u64),
{
    _IOC(_IOC_READ | _IOC_WRITE, ty, nr, T::size() as u64)
}

/// Extracts the direction field of a request number.
pub fn _IOC_DIR(nr: u64) -> (r: u64)
    ensures
        r == (nr >> _IOC_DIRSHIFT) & _IOC_DIRMASK,
{
    (nr >> _IOC_DIRSHIFT) & _IOC_DIRMASK
}

/// Extracts the type (group) field of a request number.
pub fn _IOC_TYPE(nr: u64) -> (r: u64)
    ensures
        r == (nr >> _IOC_TYPESHIFT) & _IOC_TYPEMASK,
{
    (nr >> _IOC_TYPESHIFT) & _IOC_TYPEMASK
}

/// Extracts the sequence-number field of a request number.
pub fn _IOC_NR(nr: u64) -> (r: u64)
    ensures
        r == (nr >> _IOC_NRSHIFT) & _IOC_NRMASK,
{
    (nr >> _IOC_NRSHIFT) & _IOC_NRMASK
}

/// Extracts the argument-size field of a request number.
pub fn _IOC_SIZE(nr: u64) -> (r: u64)
    ensures
        r == (nr >> _IOC_SIZESHIFT) & _IOC_SIZEMASK,
{
    (nr >> _IOC_SIZESHIFT) & _IOC_SIZEMASK
}

pub const IOC_IN: u64 = _IOC_WRITE << _IOC_DIRSHIFT;

pub const IOC_OUT: u64 = _IOC_READ << _IOC_DIRSHIFT;

pub const IOC_INOUT: u64 = (_IOC_WRITE | _IOC_READ) << _IOC_DIRSHIFT;

pub const IOCSIZE_MASK: u64 = _IOC_SIZEMASK << _IOC_SIZESHIFT;

pub const IOCSIZE_SHIFT: u64 = _IOC_SIZESHIFT;

pub const IOCPARM_SHIFT: u64 = 13;

pub const IOCPARM_MASK: u64 = 0x1fff;

pub const IOCPARM_MAX: u64 = 0x1fff;

/// Extracts the parameter-length field of a BSD-style request number.
pub fn IOCPARM_LEN(x: u64) -> (r: u64)
    ensures
        r == (x >> 16) & IOCPARM_MASK,
{
    (x >> 16) & IOCPARM_MASK
}

/// Clears the parameter-length field of a BSD-style request number.
pub fn IOCBASECMD(x: u64) -> (r: u64)
    ensures
        r == x & !(IOCPARM_MASK << 16),
{
    x & !(IOCPARM_MASK << 16)
}

/// Extracts the group field of a BSD-style request number.
pub fn IOCGROUP(x: u64) -> (r: u64)
    ensures
        r == (x >> 8) & 0xff,
{
    (x >> 8) & 0xff
}

} // verus!
