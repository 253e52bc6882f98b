//! C-layout value types and constants used by the codecs and their
//! callers.
//!
//! Every struct here is a plain record of fixed-width integers; the
//! codec modules give the message headers explicit little-endian wire
//! codecs.  The type aliases fix the C integer types of 64-bit Linux
//! targets.

#![allow(non_camel_case_types)]
#![allow(non_upper_case_globals)]

use vstd::prelude::*;

verus! {

pub type c_char = i8;

pub type c_uchar = u8;

pub type c_short = i16;

pub type c_ushort = u16;

pub type c_int = i32;

pub type c_uint = u32;

pub type c_long = i64;

pub type c_ulong = u64;

pub type size_t = u64;

pub type ssize_t = i64;

pub type dev_t = u64;

pub type pid_t = i32;

pub type sa_family_t = u16;

/// Control-message header: one record of socket ancillary data.
///
/// `cmsg_len` counts the aligned header plus the payload, without the
/// trailing padding.
#[derive(Clone, Copy, PartialEq, Eq, Structural, Debug)]
pub struct cmsghdr {
    pub cmsg_level: c_int,
    pub cmsg_type: c_int,
    pub cmsg_len: size_t,
}

/// Netlink message header.
///
/// `nlmsg_len` counts the header plus the payload, without the trailing
/// padding.
#[derive(Clone, Copy, PartialEq, Eq, Structural, Debug)]
pub struct nlmsghdr {
    pub nlmsg_len: u32,
    pub nlmsg_type: u16,
    pub nlmsg_flags: u16,
    pub nlmsg_seq: u32,
    pub nlmsg_pid: u32,
}

/// Netlink attribute header; attributes nest arbitrarily inside a
/// message or another attribute's payload.
#[derive(Clone, Copy, PartialEq, Eq, Structural, Debug)]
pub struct nlattr {
    pub nla_len: u16,
    pub nla_type: u16,
}

/// Fixed part of an inotify event record; `len` counts the bytes of the
/// trailing name field.
#[derive(Clone, Copy, PartialEq, Eq, Structural, Debug)]
pub struct inotify_event {
    pub wd: c_int,
    pub mask: u32,
    pub cookie: u32,
    pub len: u32,
}

/// Interface info message carried in the payload of rtnetlink link
/// messages.
#[derive(Clone, Copy, PartialEq, Eq, Structural, Debug)]
pub struct ifinfomsg {
    pub ifi_family: c_uchar,
    pub ifi_type: c_ushort,
    pub ifi_index: c_int,
    pub ifi_flags: c_uint,
    pub ifi_change: c_uint,
}

/// Netlink socket address.
#[derive(Clone, Copy, PartialEq, Eq, Structural, Debug)]
pub struct sockaddr_nl {
    pub nl_family: sa_family_t,
    pub nl_pad: c_ushort,
    pub nl_pid: u32,
    pub nl_groups: u32,
}

/// Argument block of the `openat2` system call.
#[derive(Clone, Copy, PartialEq, Eq, Structural, Debug)]
pub struct open_how {
    pub flags: u64,
    pub mode: u64,
    pub resolve: u64,
}

pub const RESOLVE_NO_XDEV: u64 = 0x01;

pub const RESOLVE_NO_MAGICLINKS: u64 = 0x02;

pub const RESOLVE_NO_SYMLINKS: u64 = 0x04;

pub const RESOLVE_BENEATH: u64 = 0x08;

pub const RESOLVE_IN_ROOT: u64 = 0x10;

/// Device identity block of `uinput` device setup.
#[derive(Clone, Copy, PartialEq, Eq, Structural, Debug)]
pub struct input_id {
    pub bustype: u16,
    pub vendor: u16,
    pub product: u16,
    pub version: u16,
}

pub const UINPUT_MAX_NAME_SIZE: usize = 80;

/// Argument block of `uinput` device setup.
#[derive(Clone, Copy)]
pub struct uinput_setup {
    pub id: input_id,
    pub name: [c_char; 80],
    pub ff_effects_max: u32,
}

pub const UINPUT_IOCTL_BASE: u8 = 85;

/// Scheduling attributes of the `sched_setattr` system call.
#[derive(Clone, Copy, PartialEq, Eq, Structural, Debug)]
pub struct sched_attr {
    pub size: u32,
    pub sched_policy: u32,
    pub sched_flags: u64,
    pub sched_nice: i32,
    pub sched_priority: u32,
    pub sched_runtime: u64,
    pub sched_deadline: u64,
    pub sched_period: u64,
    pub sched_util_min: u32,
    pub sched_util_max: u32,
}

pub const SCHED_FLAG_RESET_ON_FORK: u64 = 0x01;

pub const SCHED_FLAG_RECLAIM: u64 = 0x02;

pub const SCHED_FLAG_DL_OVERRUN: u64 = 0x04;

pub const SCHED_FLAG_KEEP_POLICY: u64 = 0x08;

pub const SCHED_FLAG_KEEP_PARAMS: u64 = 0x10;

pub const SCHED_FLAG_UTIL_CLAMP_MIN: u64 = 0x20;

pub const SCHED_FLAG_UTIL_CLAMP_MAX: u64 = 0x40;

pub const SCHED_FLAG_KEEP_ALL: u64 = SCHED_FLAG_KEEP_POLICY | SCHED_FLAG_KEEP_PARAMS;

pub const SCHED_FLAG_UTIL_CLAMP: u64 = SCHED_FLAG_UTIL_CLAMP_MIN | SCHED_FLAG_UTIL_CLAMP_MAX;

pub const SCHED_FLAG_ALL: u64 = SCHED_FLAG_RESET_ON_FORK | SCHED_FLAG_RECLAIM
    | SCHED_FLAG_DL_OVERRUN | SCHED_FLAG_KEEP_ALL | SCHED_FLAG_UTIL_CLAMP;

pub const EINVAL: c_int = 22;

} // verus!
