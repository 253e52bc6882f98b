//! Packing and unpacking of Linux device numbers.

use vstd::prelude::*;

verus! {

/// The major number encoded in `dev`.
pub open spec fn major_spec(dev: u64) -> u64 {
    ((dev >> 32) & 0xffff_f000) | ((dev >> 8) & 0xfff)
}

/// The minor number encoded in `dev`.
pub open spec fn minor_spec(dev: u64) -> u64 {
    ((dev >> 12) & 0xffff_ff00) | (dev & 0xff)
}

/// The device number with major part `major` and minor part `minor`.
pub open spec fn makedev_spec(major: u64, minor: u64) -> u64 {
    ((major & 0xffff_f000) << 32) | ((major & 0xfff) << 8) | ((minor & 0xffff_ff00) << 12) | (minor
        & 0xff)
}

/// Extracts the major number of a device number.
pub fn major(dev: u64) -> (r: u64)
    ensures
        r == major_spec(dev),
{
    ((dev >> 32) & 0xffff_f000) | ((dev >> 8) & 0xfff)
}

/// Extracts the minor number of a device number.
pub fn minor(dev: u64) -> (r: u64)
    ensures
        r == minor_spec(dev),
{
    ((dev >> 12) & 0xffff_ff00) | (dev & 0xff)
}

/// Combines a major and a minor number into a device number.
pub fn makedev(major: u64, minor: u64) -> (r: u64)
    ensures
        r == makedev_spec(major, minor),
{
    ((major & 0xffff_f000) << 32) | ((major & 0xfff) << 8) | ((minor & 0xffff_ff00) << 12) | (minor
        & 0xff)
}

} // verus!
