//! Safe, verified building blocks for Unix binary message framing.
//!
//! The crate centres on three length-prefixed wire formats: BSD-style
//! socket control messages (`cmsg`), Linux netlink messages and
//! attributes (`nlmsg`/`nlattr`), and inotify event records.  All three
//! share the same discipline: a fixed-size header carrying a total
//! length, alignment padding between records, and strict bounds checks
//! so that no operation ever reads or writes outside the caller's
//! buffer.
//!
//! Supporting modules provide the byte-reinterpretation model
//! (`Pod`/`Packed`), ioctl request-number arithmetic, device-number
//! packing, and nul-terminated byte-string types.

pub mod c;
pub mod cmsg;
pub mod dev;
pub mod errno;
pub mod inotify;
pub mod ioctl;
pub mod netlink;
pub mod pod;
pub mod ustr;

pub use crate::c::cmsghdr;
pub use crate::c::ifinfomsg;
pub use crate::c::inotify_event;
pub use crate::c::nlattr;
pub use crate::c::nlmsghdr;
pub use crate::cmsg::cmsg_read;
pub use crate::cmsg::cmsg_space;
pub use crate::cmsg::cmsg_write;
pub use crate::cmsg::WriteCursor;
pub use crate::dev::major;
pub use crate::dev::makedev;
pub use crate::dev::minor;
pub use crate::errno::Errno;
pub use crate::inotify::inotify_events;
pub use crate::inotify::inotify_next;
pub use crate::inotify::InotifyEvent;
pub use crate::ioctl::IOCBASECMD;
pub use crate::ioctl::IOCGROUP;
pub use crate::ioctl::IOCPARM_LEN;
pub use crate::ioctl::_IO;
pub use crate::ioctl::_IOC;
pub use crate::ioctl::_IOC_DIR;
pub use crate::ioctl::_IOC_NR;
pub use crate::ioctl::_IOC_SIZE;
pub use crate::ioctl::_IOC_TYPE;
pub use crate::ioctl::_IOR;
pub use crate::ioctl::_IOW;
pub use crate::ioctl::_IOWR;
pub use crate::netlink::nlmsg_align;
pub use crate::netlink::nlmsg_read;
pub use crate::netlink::nlmsg_read_header;
pub use crate::netlink::AttrFrame;
pub use crate::netlink::NlmsgHeader;
pub use crate::netlink::NlmsgHeaderExt;
pub use crate::netlink::NlmsgWriter;
pub use crate::netlink::Sealed;
pub use crate::pod::as_bytes;
pub use crate::pod::pod_iter;
pub use crate::pod::pod_read;
pub use crate::pod::pod_read_init;
pub use crate::pod::pod_write;
pub use crate::pod::pod_zeroed;
pub use crate::pod::Packed;
pub use crate::pod::Pod;
pub use crate::ustr::AsUstr;
pub use crate::ustr::Bstr;
pub use crate::ustr::Bytes;
pub use crate::ustr::Ustr;
pub use crate::ustr::Ustring;
pub use crate::ustr::UstrPtr;
