//! The netlink message codec.
//!
//! Netlink framing generalises the cmsg pattern: records are aligned to
//! a 4-byte boundary on every platform, and the header type varies —
//! `nlmsghdr` for messages, `nlattr` for attributes, `()` for bare
//! top-level framing — abstracted by the [`NlmsgHeader`] trait, whose
//! two essential operations read and set a header's total-length field.
//! The [`NlmsgWriter`] builds messages with arbitrarily nested
//! attribute records, back-patching each ancestor's length field as a
//! nested record is finalized.

use crate::c::ifinfomsg;
use crate::c::nlattr;
use crate::c::nlmsghdr;
use crate::c::EINVAL;
use crate::errno::einval;
use crate::errno::Errno;
use crate::pod::copy_into;
use crate::pod::i32_from_u32;
use crate::pod::i32_to_u32;
use crate::pod::u32_from_i32;
use crate::pod::u32_to_i32;
use crate::pod::Packed;
use crate::pod::Pod;
use vstd::arithmetic::div_mod::lemma_div_is_ordered;
use vstd::arithmetic::div_mod::lemma_fundamental_div_mod;
use vstd::arithmetic::div_mod::lemma_mod_multiples_basic;
use vstd::bytes::spec_u16_from_le_bytes;
use vstd::bytes::spec_u16_to_le_bytes;
use vstd::bytes::spec_u32_from_le_bytes;
use vstd::bytes::spec_u32_to_le_bytes;
use vstd::bytes::u16_from_le_bytes;
use vstd::bytes::u16_to_le_bytes;
use vstd::bytes::u32_from_le_bytes;
use vstd::bytes::u32_to_le_bytes;
use vstd::prelude::*;
use vstd::slice::slice_subrange;

verus! {

/// Alignment mask of the netlink boundary: four bytes on all platforms.
pub const NLMSG_ALIGN_MASK: usize = 3;

/// `n` rounded up to the next multiple of four.
pub open spec fn nlmsg_align_spec(n: int) -> int {
    ((n + 3) / 4) * 4
}

/// Basic shape of the alignment function: it rounds up, by less than
/// one boundary, to a multiple of the boundary.
pub proof fn lemma_nlmsg_align_bounds(n: int)
    requires
        n >= 0,
    ensures
        n <= nlmsg_align_spec(n) <= n + 3,
        nlmsg_align_spec(n) % 4 == 0,
{
    lemma_fundamental_div_mod(n + 3, 4);
    lemma_mod_multiples_basic((n + 3) / 4, 4);
}

/// Alignment is monotone.
pub proof fn lemma_nlmsg_align_monotone(a: int, b: int)
    requires
        0 <= a <= b,
    ensures
        nlmsg_align_spec(a) <= nlmsg_align_spec(b),
{
    lemma_div_is_ordered(a + 3, b + 3, 4);
}

/// Increases the size to the next multiple of 4.
pub fn nlmsg_align(size: usize) -> (r: usize)
    requires
        size + NLMSG_ALIGN_MASK <= usize::MAX,
    ensures
        r == nlmsg_align_spec(size as int),
{
    proof {
        lemma_nlmsg_align_bounds(size as int);
    }
    ((size + NLMSG_ALIGN_MASK) / (NLMSG_ALIGN_MASK + 1)) * (NLMSG_ALIGN_MASK + 1)
}

impl Pod for nlmsghdr {
    open spec fn size_spec() -> int {
        16
    }

    open spec fn from_byte_seq(b: Seq<u8>) -> nlmsghdr {
        nlmsghdr {
            nlmsg_len: spec_u32_from_le_bytes(b.subrange(0, 4)),
            nlmsg_type: spec_u16_from_le_bytes(b.subrange(4, 6)),
            nlmsg_flags: spec_u16_from_le_bytes(b.subrange(6, 8)),
            nlmsg_seq: spec_u32_from_le_bytes(b.subrange(8, 12)),
            nlmsg_pid: spec_u32_from_le_bytes(b.subrange(12, 16)),
        }
    }

    fn size() -> (n: usize) {
        16
    }

    fn from_bytes(b: &[u8]) -> (r: nlmsghdr) {
        nlmsghdr {
            nlmsg_len: u32_from_le_bytes(slice_subrange(b, 0, 4)),
            nlmsg_type: u16_from_le_bytes(slice_subrange(b, 4, 6)),
            nlmsg_flags: u16_from_le_bytes(slice_subrange(b, 6, 8)),
            nlmsg_seq: u32_from_le_bytes(slice_subrange(b, 8, 12)),
            nlmsg_pid: u32_from_le_bytes(slice_subrange(b, 12, 16)),
        }
    }
}

impl Packed for nlmsghdr {
    open spec fn as_byte_seq(&self) -> Seq<u8> {
        spec_u32_to_le_bytes(self.nlmsg_len) + spec_u16_to_le_bytes(self.nlmsg_type)
            + spec_u16_to_le_bytes(self.nlmsg_flags) + spec_u32_to_le_bytes(self.nlmsg_seq)
            + spec_u32_to_le_bytes(self.nlmsg_pid)
    }

    fn to_bytes(&self) -> (r: Vec<u8>) {
        let mut out = u32_to_le_bytes(self.nlmsg_len);
        let mut ty = u16_to_le_bytes(self.nlmsg_type);
        let mut flags = u16_to_le_bytes(self.nlmsg_flags);
        let mut seq = u32_to_le_bytes(self.nlmsg_seq);
        let mut pid = u32_to_le_bytes(self.nlmsg_pid);
        out.append(&mut ty);
        out.append(&mut flags);
        out.append(&mut seq);
        out.append(&mut pid);
        proof {
            assert(out@ =~= self.as_byte_seq());
        }
        out
    }
}

/// Decoding a netlink message header undoes encoding it.
pub proof fn lemma_nlmsghdr_round_trip(h: nlmsghdr)
    ensures
        h.as_byte_seq().len() == 16,
        nlmsghdr::from_byte_seq(h.as_byte_seq()) == h,
{
    vstd::bytes::lemma_auto_spec_u16_to_from_le_bytes();
    vstd::bytes::lemma_auto_spec_u32_to_from_le_bytes();
    let b = h.as_byte_seq();
    assert(b.subrange(0, 4) =~= spec_u32_to_le_bytes(h.nlmsg_len));
    assert(b.subrange(4, 6) =~= spec_u16_to_le_bytes(h.nlmsg_type));
    assert(b.subrange(6, 8) =~= spec_u16_to_le_bytes(h.nlmsg_flags));
    assert(b.subrange(8, 12) =~= spec_u32_to_le_bytes(h.nlmsg_seq));
    assert(b.subrange(12, 16) =~= spec_u32_to_le_bytes(h.nlmsg_pid));
}

impl Pod for nlattr {
    open spec fn size_spec() -> int {
        4
    }

    open spec fn from_byte_seq(b: Seq<u8>) -> nlattr {
        nlattr {
            nla_len: spec_u16_from_le_bytes(b.subrange(0, 2)),
            nla_type: spec_u16_from_le_bytes(b.subrange(2, 4)),
        }
    }

    fn size() -> (n: usize) {
        4
    }

    fn from_bytes(b: &[u8]) -> (r: nlattr) {
        nlattr {
            nla_len: u16_from_le_bytes(slice_subrange(b, 0, 2)),
            nla_type: u16_from_le_bytes(slice_subrange(b, 2, 4)),
        }
    }
}

impl Packed for nlattr {
    open spec fn as_byte_seq(&self) -> Seq<u8> {
        spec_u16_to_le_bytes(self.nla_len) + spec_u16_to_le_bytes(self.nla_type)
    }

    fn to_bytes(&self) -> (r: Vec<u8>) {
        let mut out = u16_to_le_bytes(self.nla_len);
        let mut ty = u16_to_le_bytes(self.nla_type);
        out.append(&mut ty);
        proof {
            assert(out@ =~= self.as_byte_seq());
        }
        out
    }
}

/// Decoding a netlink attribute header undoes encoding it.
pub proof fn lemma_nlattr_round_trip(h: nlattr)
    ensures
        h.as_byte_seq().len() == 4,
        nlattr::from_byte_seq(h.as_byte_seq()) == h,
{
    vstd::bytes::lemma_auto_spec_u16_to_from_le_bytes();
    let b = h.as_byte_seq();
    assert(b.subrange(0, 2) =~= spec_u16_to_le_bytes(h.nla_len));
    assert(b.subrange(2, 4) =~= spec_u16_to_le_bytes(h.nla_type));
}

impl Packed for () {
    open spec fn as_byte_seq(&self) -> Seq<u8> {
        Seq::empty()
    }

    fn to_bytes(&self) -> (r: Vec<u8>) {
        let out: Vec<u8> = Vec::new();
        proof {
            assert(out@ =~= self.as_byte_seq());
        }
        out
    }
}

impl Pod for ifinfomsg {
    open spec fn size_spec() -> int {
        16
    }

    open spec fn from_byte_seq(b: Seq<u8>) -> ifinfomsg {
        ifinfomsg {
            ifi_family: b[0],
            ifi_type: spec_u16_from_le_bytes(b.subrange(2, 4)),
            ifi_index: i32_from_u32(spec_u32_from_le_bytes(b.subrange(4, 8))),
            ifi_flags: spec_u32_from_le_bytes(b.subrange(8, 12)),
            ifi_change: spec_u32_from_le_bytes(b.subrange(12, 16)),
        }
    }

    fn size() -> (n: usize) {
        16
    }

    fn from_bytes(b: &[u8]) -> (r: ifinfomsg) {
        ifinfomsg {
            ifi_family: b[0],
            ifi_type: u16_from_le_bytes(slice_subrange(b, 2, 4)),
            ifi_index: u32_to_i32(u32_from_le_bytes(slice_subrange(b, 4, 8))),
            ifi_flags: u32_from_le_bytes(slice_subrange(b, 8, 12)),
            ifi_change: u32_from_le_bytes(slice_subrange(b, 12, 16)),
        }
    }
}

impl Packed for ifinfomsg {
    open spec fn as_byte_seq(&self) -> Seq<u8> {
        seq![self.ifi_family, 0u8] + spec_u16_to_le_bytes(self.ifi_type) + spec_u32_to_le_bytes(
            u32_from_i32(self.ifi_index),
        ) + spec_u32_to_le_bytes(self.ifi_flags) + spec_u32_to_le_bytes(self.ifi_change)
    }

    fn to_bytes(&self) -> (r: Vec<u8>) {
        let mut out: Vec<u8> = Vec::new();
        out.push(self.ifi_family);
        out.push(0);
        let mut ty = u16_to_le_bytes(self.ifi_type);
        let mut index = u32_to_le_bytes(i32_to_u32(self.ifi_index));
        let mut flags = u32_to_le_bytes(self.ifi_flags);
        let mut change = u32_to_le_bytes(self.ifi_change);
        out.append(&mut ty);
        out.append(&mut index);
        out.append(&mut flags);
        out.append(&mut change);
        proof {
            assert(out@ =~= self.as_byte_seq());
        }
        out
    }
}

/// The general shape of a header of a netlink message: a fixed-size,
/// padding-free record whose one mutable aspect is a total-length
/// field.
pub trait NlmsgHeader: Packed {
    /// The value of the length field.
    spec fn len_spec(&self) -> int;

    /// The header with its length field set to `len`.
    spec fn with_len_spec(&self, len: int) -> Self;

    /// Whether `len` fits the native length field without truncation.
    spec fn len_fits_spec(len: int) -> bool;

    /// Wire size of the header in bytes.
    spec fn hdr_size_spec() -> int;

    /// The wire image of every header value has exactly the header's
    /// wire size.
    proof fn lemma_hdr_wf(&self)
        ensures
            Self::hdr_size_spec() >= 0,
            self.as_byte_seq().len() == Self::hdr_size_spec(),
    ;

    /// Wire size of the header in bytes.
    fn hdr_size() -> (n: usize)
        ensures
            n == Self::hdr_size_spec(),
    ;

    /// Returns the length of the padded header + payload.
    ///
    /// Fails if the length cannot be converted to `usize` without
    /// truncation.
    fn len(&self) -> (r: Result<usize, Errno>)
        ensures
            0 <= self.len_spec() <= usize::MAX as int ==> r == Result::<usize, Errno>::Ok(
                self.len_spec() as usize,
            ),
            !(0 <= self.len_spec() <= usize::MAX as int) ==> r == Result::<usize, Errno>::Err(
                Errno(EINVAL),
            ),
    ;

    /// Sets the length of the padded header + payload.
    ///
    /// Fails if the length cannot be converted to the native length
    /// field without truncation.
    fn set_len(&mut self, len: usize) -> (r: Result<(), Errno>)
        ensures
            Self::len_fits_spec(len as int) ==> r == Result::<(), Errno>::Ok(()) && *final(self)
                == old(self).with_len_spec(len as int),
            !Self::len_fits_spec(len as int) ==> r == Result::<(), Errno>::Err(Errno(EINVAL))
                && *final(self) == *old(self),
    ;
}

impl NlmsgHeader for () {
    open spec fn len_spec(&self) -> int {
        0
    }

    open spec fn with_len_spec(&self, len: int) -> () {
        ()
    }

    open spec fn len_fits_spec(len: int) -> bool {
        true
    }

    open spec fn hdr_size_spec() -> int {
        0
    }

    proof fn lemma_hdr_wf(&self) {
        assert(self.as_byte_seq().len() == 0);
    }

    fn hdr_size() -> (n: usize) {
        0
    }

    fn len(&self) -> (r: Result<usize, Errno>) {
        Ok(0)
    }

    fn set_len(&mut self, _len: usize) -> (r: Result<(), Errno>) {
        Ok(())
    }
}

impl NlmsgHeader for nlmsghdr {
    open spec fn len_spec(&self) -> int {
        self.nlmsg_len as int
    }

    open spec fn with_len_spec(&self, len: int) -> nlmsghdr {
        nlmsghdr { nlmsg_len: len as u32, ..*self }
    }

    open spec fn len_fits_spec(len: int) -> bool {
        0 <= len <= u32::MAX as int
    }

    open spec fn hdr_size_spec() -> int {
        16
    }

    proof fn lemma_hdr_wf(&self) {
        lemma_nlmsghdr_round_trip(*self);
    }

    fn hdr_size() -> (n: usize) {
        16
    }

    fn len(&self) -> (r: Result<usize, Errno>) {
        if (self.nlmsg_len as u64) <= (usize::MAX as u64) {
            Ok(self.nlmsg_len as usize)
        } else {
            einval()
        }
    }

    fn set_len(&mut self, len: usize) -> (r: Result<(), Errno>) {
        if (len as u64) <= (u32::MAX as u64) {
            self.nlmsg_len = len as u32;
            Ok(())
        } else {
            einval()
        }
    }
}

impl NlmsgHeader for nlattr {
    open spec fn len_spec(&self) -> int {
        self.nla_len as int
    }

    open spec fn with_len_spec(&self, len: int) -> nlattr {
        nlattr { nla_len: len as u16, ..*self }
    }

    open spec fn len_fits_spec(len: int) -> bool {
        0 <= len <= u16::MAX as int
    }

    open spec fn hdr_size_spec() -> int {
        4
    }

    proof fn lemma_hdr_wf(&self) {
        lemma_nlattr_round_trip(*self);
    }

    fn hdr_size() -> (n: usize) {
        4
    }

    fn len(&self) -> (r: Result<usize, Errno>) {
        Ok(self.nla_len as usize)
    }

    fn set_len(&mut self, len: usize) -> (r: Result<(), Errno>) {
        if len <= u16::MAX as usize {
            self.nla_len = len as u16;
            Ok(())
        } else {
            einval()
        }
    }
}

/// Reads an object from a netlink message buffer.
///
/// Advances the buffer by the size of `T` rounded up to the next
/// multiple of 4, clamped to what the buffer still holds: the final
/// record of a batch may lack its trailing padding.
pub fn nlmsg_read<T: Pod>(buf: &mut &[u8]) -> (r: Result<(usize, T), Errno>)
    requires
        T::size_spec() + 3 <= usize::MAX,
    ensures
        ({
            let b = old(buf)@;
            if b.len() >= T::size_spec() {
                let space = if nlmsg_align_spec(T::size_spec()) <= b.len() {
                    nlmsg_align_spec(T::size_spec())
                } else {
                    b.len() as int
                };
                match r {
                    Ok((sp, obj)) => {
                        &&& sp == space
                        &&& obj == T::from_byte_seq(b.take(T::size_spec()))
                        &&& final(buf)@ == b.skip(space)
                    },
                    Err(_) => false,
                }
            } else {
                &&& r == Result::<(usize, T), Errno>::Err(Errno(EINVAL))
                &&& final(buf)@ == b
            }
        }),
{
    let cur: &[u8] = *buf;
    let object_size = T::size();
    if cur.len() < object_size {
        return einval();
    }
    let prefix = slice_subrange(cur, 0, object_size);
    let obj = T::from_bytes(prefix);
    let aligned = nlmsg_align(object_size);
    let space = if aligned <= cur.len() {
        aligned
    } else {
        cur.len()
    };
    *buf = slice_subrange(cur, space, cur.len());
    proof {
        assert(prefix@ =~= old(buf)@.take(T::size_spec()));
        assert(final(buf)@ =~= old(buf)@.skip(space as int));
    }
    Ok((space, obj))
}

/// A buffer prefix parses as one well-formed netlink record with header
/// type `H`: it holds a full header whose declared length fits a
/// `usize`, covers at least the aligned header, admits alignment slack
/// without overflow, and lies within the buffer.
pub open spec fn nlmsg_parse_ok<H: Pod + NlmsgHeader>(b: Seq<u8>) -> bool {
    &&& b.len() >= H::size_spec()
    &&& 0 <= H::from_byte_seq(b.take(H::size_spec())).len_spec() <= usize::MAX as int
    &&& H::from_byte_seq(b.take(H::size_spec())).len_spec() >= nlmsg_align_spec(H::size_spec())
    &&& b.len() >= H::from_byte_seq(b.take(H::size_spec())).len_spec()
    &&& H::from_byte_seq(b.take(H::size_spec())).len_spec() + 3 <= usize::MAX as int
}

/// The space a parsed record consumes: its aligned declared length,
/// clamped to the buffer.
pub open spec fn nlmsg_consumed<H: Pod + NlmsgHeader>(b: Seq<u8>) -> int {
    let len = H::from_byte_seq(b.take(H::size_spec())).len_spec();
    if nlmsg_align_spec(len) <= b.len() {
        nlmsg_align_spec(len)
    } else {
        b.len() as int
    }
}

/// Reads a header plus payload from a netlink message buffer.
///
/// On success returns the space consumed, the parsed header, and a
/// slice covering the payload between the aligned header boundary and
/// the header's declared length; the buffer advances past the padded
/// record, clamped to what it still holds.  On any malformed or
/// truncated input the buffer is unchanged and the read fails.
pub fn nlmsg_read_header<'a, H: Pod + NlmsgHeader>(buf: &mut &'a [u8]) -> (r: Result<
    (usize, H, &'a [u8]),
    Errno,
>)
    requires
        H::size_spec() + 3 <= usize::MAX,
    ensures
        ({
            let b = old(buf)@;
            if nlmsg_parse_ok::<H>(b) {
                let h = H::from_byte_seq(b.take(H::size_spec()));
                match r {
                    Ok((sp, hdr, data)) => {
                        &&& sp == nlmsg_consumed::<H>(b)
                        &&& hdr == h
                        &&& data@ == b.subrange(nlmsg_align_spec(H::size_spec()), h.len_spec())
                        &&& final(buf)@ == b.skip(nlmsg_consumed::<H>(b))
                    },
                    Err(_) => false,
                }
            } else {
                &&& r == Result::<(usize, H, &'a [u8]), Errno>::Err(Errno(EINVAL))
                &&& final(buf)@ == b
            }
        }),
{
    let cur: &'a [u8] = *buf;
    let object_size = H::size();
    let header_space = nlmsg_align(object_size);
    if cur.len() < object_size {
        return einval();
    }
    let prefix = slice_subrange(cur, 0, object_size);
    proof {
        assert(prefix@ =~= cur@.take(H::size_spec()));
    }
    let hdr = H::from_bytes(prefix);
    let len = match hdr.len() {
        Ok(l) => l,
        Err(e) => {
            return Err(e);
        },
    };
    if len < header_space {
        return einval();
    }
    if cur.len() < len {
        return einval();
    }
    if usize::MAX - len < NLMSG_ALIGN_MASK {
        return einval();
    }
    let aligned = nlmsg_align(len);
    let space = if aligned <= cur.len() {
        aligned
    } else {
        cur.len()
    };
    let data = slice_subrange(cur, header_space, len);
    *buf = slice_subrange(cur, space, cur.len());
    proof {
        assert(final(buf)@ =~= cur@.skip(space as int));
    }
    Ok((space, hdr, data))
}

/// Round trip for one attribute record: the bytes the writer lays out
/// when a nested record is finalized — its header, length field set to
/// the record's length, followed by its payload — parse back as a
/// well-formed record with the same type and a payload byte-equal to
/// the one written.
pub proof fn lemma_nlattr_record_round_trip(w: Seq<u8>, ty: u16, payload: Seq<u8>)
    requires
        4 + payload.len() <= u16::MAX,
        w.len() >= 4 + payload.len(),
        w.subrange(0, 4) == (nlattr {
            nla_len: (4 + payload.len()) as u16,
            nla_type: ty,
        }).as_byte_seq(),
        w.subrange(4, 4 + payload.len() as int) == payload,
    ensures
        nlmsg_parse_ok::<nlattr>(w),
        nlattr::from_byte_seq(w.take(4)) == (nlattr {
            nla_len: (4 + payload.len()) as u16,
            nla_type: ty,
        }),
        w.subrange(4, nlattr::from_byte_seq(w.take(4)).len_spec()) == payload,
{
    let h = nlattr { nla_len: (4 + payload.len()) as u16, nla_type: ty };
    lemma_nlattr_round_trip(h);
    assert(w.take(4) =~= w.subrange(0, 4));
    assert(nlattr::from_byte_seq(w.take(4)) == nlattr::from_byte_seq(h.as_byte_seq()));
}

/// Round trip for one message record: the bytes the writer lays out
/// when the root record is finalized — the message header, length field
/// set to the record's length, followed by its payload — parse back as
/// a well-formed record carrying the same header fields and a payload
/// byte-equal to the one written.
pub proof fn lemma_nlmsghdr_record_round_trip(w: Seq<u8>, h: nlmsghdr, payload: Seq<u8>)
    requires
        16 + payload.len() <= u32::MAX,
        16 + payload.len() + 3 <= usize::MAX,
        w.len() >= 16 + payload.len(),
        w.subrange(0, 16) == (nlmsghdr {
            nlmsg_len: (16 + payload.len()) as u32,
            ..h
        }).as_byte_seq(),
        w.subrange(16, 16 + payload.len() as int) == payload,
    ensures
        nlmsg_parse_ok::<nlmsghdr>(w),
        nlmsghdr::from_byte_seq(w.take(16)) == (nlmsghdr { nlmsg_len: (16 + payload.len()) as u32, ..h }),
        w.subrange(16, nlmsghdr::from_byte_seq(w.take(16)).len_spec()) == payload,
{
    let h2 = nlmsghdr { nlmsg_len: (16 + payload.len()) as u32, ..h };
    lemma_nlmsghdr_round_trip(h2);
    assert(w.take(16) =~= w.subrange(0, 16));
    assert(nlmsghdr::from_byte_seq(w.take(16)) == nlmsghdr::from_byte_seq(h2.as_byte_seq()));
}

/// One open nested attribute record of a writer: the buffer offset
/// where its header will be committed, the header value supplied at
/// `nest`, and the record's running logical length.
#[derive(Clone, Copy, PartialEq, Eq, Structural, Debug)]
pub struct AttrFrame {
    pub start: usize,
    pub header: nlattr,
    pub len: usize,
}

/// A writer for netlink messages.
///
/// The writer owns a fixed-size buffer and builds one root record whose
/// header is supplied at construction, with arbitrarily nested
/// attribute records opened by [`NlmsgWriter::nest`] and closed, inner
/// records first, by [`NlmsgWriter::finalize_nested`].  A record's
/// header is committed to the buffer when the record is finalized, its
/// length field set to the record's accumulated length; closing a
/// nested record adds its full padded contribution to the enclosing
/// record's running length.  The push/pop discipline of the open-record
/// stack makes it impossible to finalize a record twice or to finalize
/// a parent before its children.
pub struct NlmsgWriter<H: NlmsgHeader> {
    buf: Vec<u8>,
    header: H,
    len: usize,
    frames: Vec<AttrFrame>,
}

impl<H: NlmsgHeader> NlmsgWriter<H> {
    /// The bytes of the backing buffer.
    pub closed spec fn bytes(&self) -> Seq<u8> {
        self.buf@
    }

    /// The header supplied at construction.
    pub closed spec fn root_header(&self) -> H {
        self.header
    }

    /// The running logical length of the root record.
    pub closed spec fn root_len(&self) -> int {
        self.len as int
    }

    /// The stack of open nested records, outermost first.
    pub closed spec fn frames_spec(&self) -> Seq<AttrFrame> {
        self.frames@
    }

    /// The number of open nested records.
    pub open spec fn depth(&self) -> int {
        self.frames_spec().len() as int
    }

    /// Buffer offset where the innermost open record starts.
    pub open spec fn cur_start(&self) -> int {
        if self.depth() == 0 {
            0
        } else {
            self.frames_spec().last().start as int
        }
    }

    /// Running logical length of the innermost open record.
    pub open spec fn cur_len(&self) -> int {
        if self.depth() == 0 {
            self.root_len()
        } else {
            self.frames_spec().last().len as int
        }
    }

    /// Structural invariant: every record's running length covers its
    /// header and stays inside the buffer, and each nested record
    /// starts at the aligned end of its parent's frozen length.
    pub open spec fn wf(&self) -> bool {
        &&& self.bytes().len() + 3 <= usize::MAX
        &&& H::hdr_size_spec() <= self.root_len()
        &&& self.root_len() <= self.bytes().len()
        &&& forall|i: int|
            0 <= i < self.depth() ==> (#[trigger] self.frames_spec()[i]).len >= 4
                && self.frames_spec()[i].start + self.frames_spec()[i].len <= self.bytes().len()
        &&& (self.depth() > 0 ==> self.frames_spec()[0].start == nlmsg_align_spec(self.root_len()))
        &&& forall|i: int|
            0 <= i < self.depth() - 1 ==> (#[trigger] self.frames_spec()[i + 1]).start
                == self.frames_spec()[i].start + nlmsg_align_spec(self.frames_spec()[i].len as int)
    }

    /// Creates a new writer that uses the buffer as backing storage.
    ///
    /// Fails if the buffer cannot even hold the header.
    pub fn new(buf: Vec<u8>, header: H) -> (r: Result<NlmsgWriter<H>, Errno>)
        requires
            buf@.len() + 3 <= usize::MAX,
        ensures
            ({
                if H::hdr_size_spec() <= buf@.len() {
                    match r {
                        Ok(w) => {
                            &&& w.wf()
                            &&& w.bytes() == buf@
                            &&& w.root_header() == header
                            &&& w.root_len() == H::hdr_size_spec()
                            &&& w.depth() == 0
                        },
                        Err(_) => false,
                    }
                } else {
                    r matches Err(e) && e == Errno(EINVAL)
                }
            }),
    {
        let size = H::hdr_size();
        if buf.len() < size {
            return einval();
        }
        Ok(NlmsgWriter { buf, header, len: size, frames: Vec::new() })
    }

    /// Writes `data` into the innermost open record.
    ///
    /// The write position is the aligned end of the record so far; on
    /// success the bytes stand there, everything else is unchanged, and
    /// the record's length grows to the aligned position plus the data
    /// length.  If the buffer cannot hold the aligned position plus the
    /// data, nothing changes and the write fails.
    pub fn write(&mut self, data: &[u8]) -> (r: Result<(), Errno>)
        requires
            old(self).wf(),
        ensures
            final(self).wf(),
            ({
                let a = nlmsg_align_spec(old(self).cur_len());
                let wpos = old(self).cur_start() + a;
                if wpos + data@.len() <= old(self).bytes().len() {
                    &&& r == Result::<(), Errno>::Ok(())
                    &&& final(self).bytes().len() == old(self).bytes().len()
                    &&& final(self).bytes().subrange(wpos, wpos + data@.len()) == data@
                    &&& forall|i: int|
                        0 <= i < old(self).bytes().len() && !(wpos <= i < wpos + data@.len())
                            ==> final(self).bytes()[i] == old(self).bytes()[i]
                    &&& final(self).root_header() == old(self).root_header()
                    &&& final(self).depth() == old(self).depth()
                    &&& final(self).cur_start() == old(self).cur_start()
                    &&& final(self).cur_len() == a + data@.len()
                    &&& final(self).root_len() == if old(self).depth() == 0 {
                        a + data@.len()
                    } else {
                        old(self).root_len()
                    }
                    &&& (old(self).depth() > 0 ==> final(self).frames_spec() == old(
                        self,
                    ).frames_spec().update(
                        old(self).depth() - 1,
                        AttrFrame {
                            len: (a + data@.len()) as usize,
                            ..old(self).frames_spec().last()
                        },
                    ))
                    &&& (old(self).depth() == 0 ==> final(self).frames_spec() == old(
                        self,
                    ).frames_spec())
                } else {
                    &&& r == Result::<(), Errno>::Err(Errno(EINVAL))
                    &&& *final(self) == *old(self)
                }
            }),
    {
        let buflen = self.buf.len();
        let cs: usize;
        let cl: usize;
        if self.frames.len() == 0 {
            cs = 0;
            cl = self.len;
        } else {
            let f = self.frames[self.frames.len() - 1];
            cs = f.start;
            cl = f.len;
        }
        let a = nlmsg_align(cl);
        if a > buflen - cs {
            return einval();
        }
        let wpos = cs + a;
        if data.len() > buflen - wpos {
            return einval();
        }
        copy_into(&mut self.buf, wpos, data);
        let newlen = a + data.len();
        if self.frames.len() == 0 {
            self.len = newlen;
        } else {
            let i = self.frames.len() - 1;
            let mut f = self.frames[i];
            f.len = newlen;
            self.frames[i] = f;
        }
        Ok(())
    }

    /// Writes the wire image of `data` into the innermost open record,
    /// exactly as [`NlmsgWriter::write`] writes plain bytes.
    pub fn write_obj<T: Packed>(&mut self, data: &T) -> (r: Result<(), Errno>)
        requires
            old(self).wf(),
        ensures
            final(self).wf(),
            ({
                let bytes = data.as_byte_seq();
                let a = nlmsg_align_spec(old(self).cur_len());
                let wpos = old(self).cur_start() + a;
                if wpos + bytes.len() <= old(self).bytes().len() {
                    &&& r == Result::<(), Errno>::Ok(())
                    &&& final(self).bytes().len() == old(self).bytes().len()
                    &&& final(self).bytes().subrange(wpos, wpos + bytes.len()) == bytes
                    &&& forall|i: int|
                        0 <= i < old(self).bytes().len() && !(wpos <= i < wpos + bytes.len())
                            ==> final(self).bytes()[i] == old(self).bytes()[i]
                    &&& final(self).root_header() == old(self).root_header()
                    &&& final(self).depth() == old(self).depth()
                    &&& final(self).cur_start() == old(self).cur_start()
                    &&& final(self).cur_len() == a + bytes.len()
                } else {
                    &&& r == Result::<(), Errno>::Err(Errno(EINVAL))
                    &&& *final(self) == *old(self)
                }
            }),
    {
        let bytes = data.to_bytes();
        self.write(bytes.as_slice())
    }

    /// Opens a nested attribute record at the aligned end of the
    /// innermost open record.
    ///
    /// On success the new record starts there with the given header and
    /// an initial length of the attribute header size; the buffer is
    /// untouched until the record is finalized.  Fails, changing
    /// nothing, if no room for the attribute header remains at the
    /// aligned position.
    pub fn nest(&mut self, header: nlattr) -> (r: Result<(), Errno>)
        requires
            old(self).wf(),
        ensures
            final(self).wf(),
            ({
                let ns = old(self).cur_start() + nlmsg_align_spec(old(self).cur_len());
                if ns + 4 <= old(self).bytes().len() {
                    &&& r == Result::<(), Errno>::Ok(())
                    &&& final(self).bytes() == old(self).bytes()
                    &&& final(self).root_header() == old(self).root_header()
                    &&& final(self).root_len() == old(self).root_len()
                    &&& final(self).frames_spec() == old(self).frames_spec().push(
                        AttrFrame { start: ns as usize, header, len: 4 },
                    )
                } else {
                    &&& r == Result::<(), Errno>::Err(Errno(EINVAL))
                    &&& *final(self) == *old(self)
                }
            }),
    {
        let buflen = self.buf.len();
        let cs: usize;
        let cl: usize;
        if self.frames.len() == 0 {
            cs = 0;
            cl = self.len;
        } else {
            let f = self.frames[self.frames.len() - 1];
            cs = f.start;
            cl = f.len;
        }
        let a = nlmsg_align(cl);
        if a >= buflen - cs {
            return einval();
        }
        let ns = cs + a;
        if buflen - ns < 4 {
            return einval();
        }
        self.frames.push(AttrFrame { start: ns, header, len: 4 });
        Ok(())
    }

    /// Closes the innermost open nested record.
    ///
    /// Commits the record's attribute header, with its length field set
    /// to the record's accumulated length, at the record's start;
    /// everything else in the buffer is unchanged.  The enclosing
    /// record's running length absorbs the closed record's full padded
    /// contribution: it becomes its own aligned length plus the closed
    /// record's length.  Returns the closed record's length.  Fails,
    /// changing nothing, if that length does not fit the attribute
    /// header's 16-bit length field.
    pub fn finalize_nested(&mut self) -> (r: Result<usize, Errno>)
        requires
            old(self).wf(),
            old(self).depth() > 0,
        ensures
            final(self).wf(),
            ({
                let f = old(self).frames_spec().last();
                let hdr2 = nlattr { nla_len: f.len as u16, nla_type: f.header.nla_type };
                if f.len <= u16::MAX {
                    &&& r == Result::<usize, Errno>::Ok(f.len)
                    &&& final(self).bytes().len() == old(self).bytes().len()
                    &&& final(self).bytes().subrange(f.start as int, f.start + 4)
                        == hdr2.as_byte_seq()
                    &&& forall|i: int|
                        0 <= i < old(self).bytes().len() && !(f.start <= i < f.start + 4)
                            ==> final(self).bytes()[i] == old(self).bytes()[i]
                    &&& final(self).root_header() == old(self).root_header()
                    &&& final(self).depth() == old(self).depth() - 1
                    &&& (old(self).depth() == 1 ==> final(self).root_len() == nlmsg_align_spec(
                        old(self).root_len(),
                    ) + f.len && final(self).frames_spec() == old(self).frames_spec().drop_last())
                    &&& (old(self).depth() > 1 ==> {
                        let p = old(self).frames_spec()[old(self).depth() - 2];
                        &&& final(self).root_len() == old(self).root_len()
                        &&& final(self).frames_spec() == old(
                            self,
                        ).frames_spec().drop_last().update(
                            old(self).depth() - 2,
                            AttrFrame {
                                len: (nlmsg_align_spec(p.len as int) + f.len) as usize,
                                ..p
                            },
                        )
                    })
                } else {
                    &&& r == Result::<usize, Errno>::Err(Errno(EINVAL))
                    &&& *final(self) == *old(self)
                }
            }),
    {
        let di = self.frames.len() - 1;
        let f = self.frames[di];
        let mut hdr2 = f.header;
        let set = hdr2.set_len(f.len);
        if set.is_err() {
            return einval();
        }
        let hb = hdr2.to_bytes();
        proof {
            lemma_nlattr_round_trip(hdr2);
        }
        copy_into(&mut self.buf, f.start, hb.as_slice());
        self.frames.pop();
        if self.frames.len() == 0 {
            let a = nlmsg_align(self.len);
            proof {
                lemma_nlmsg_align_bounds(old(self).root_len());
            }
            self.len = a + f.len;
        } else {
            let pi = self.frames.len() - 1;
            let mut p = self.frames[pi];
            proof {
                lemma_nlmsg_align_bounds(p.len as int);
                let fs = old(self).frames_spec();
                let d = old(self).depth();
                assert(fs[d - 1].start == fs[(d - 2) + 1].start);
                assert(fs[(d - 2) + 1].start == fs[d - 2].start + nlmsg_align_spec(
                    fs[d - 2].len as int,
                ));
            }
            let a = nlmsg_align(p.len);
            p.len = a + f.len;
            self.frames[pi] = p;
            proof {
                let fs = old(self).frames_spec();
                let d = old(self).depth();
                assert(self.frames_spec() =~= fs.drop_last().update(
                    d - 2,
                    AttrFrame { len: (nlmsg_align_spec(fs[d - 2].len as int) + fs[d - 1].len) as usize, ..fs[d - 2] },
                ));
                assert forall|i: int| 0 <= i < self.depth() - 1 implies (
                #[trigger] self.frames_spec()[i + 1]).start == self.frames_spec()[i].start
                    + nlmsg_align_spec(self.frames_spec()[i].len as int) by {
                    assert(fs[i + 1].start == fs[i].start + nlmsg_align_spec(fs[i].len as int));
                }
            }
        }
        Ok(f.len)
    }

    /// Closes the root record: sets the header's length field to the
    /// record's accumulated length, commits the header at the start of
    /// the buffer, and returns the buffer together with that length.
    ///
    /// Every nested record must have been finalized first.  Fails if
    /// the accumulated length does not fit the header's native length
    /// field.
    pub fn finalize(self) -> (r: Result<(Vec<u8>, usize), Errno>)
        requires
            self.wf(),
            self.depth() == 0,
        ensures
            ({
                if H::len_fits_spec(self.root_len()) {
                    match r {
                        Ok((v, sz)) => {
                            &&& sz == self.root_len()
                            &&& v@.len() == self.bytes().len()
                            &&& v@.subrange(0, H::hdr_size_spec()) == self.root_header()
                                .with_len_spec(self.root_len()).as_byte_seq()
                            &&& forall|i: int|
                                H::hdr_size_spec() <= i < self.bytes().len() ==> v@[i]
                                    == self.bytes()[i]
                        },
                        Err(_) => false,
                    }
                } else {
                    r matches Err(e) && e == Errno(EINVAL)
                }
            }),
    {
        let NlmsgWriter { mut buf, mut header, len, frames } = self;
        match header.set_len(len) {
            Ok(_) => {},
            Err(e) => {
                return Err(e);
            },
        }
        let hb = header.to_bytes();
        proof {
            header.lemma_hdr_wf();
        }
        copy_into(&mut buf, 0, hb.as_slice());
        Ok((buf, len))
    }
}

/// Marker supertrait of [`NlmsgHeaderExt`]; implemented for every
/// header type.
pub trait Sealed {

}

impl<T: NlmsgHeader> Sealed for T {

}

/// Extension trait giving every netlink header type a `read` shorthand.
pub trait NlmsgHeaderExt: Pod + NlmsgHeader + Sealed {
    /// Reads a header plus payload from a netlink message; returns the
    /// space consumed, the header, and the payload, exactly as
    /// [`nlmsg_read_header`] does.
    fn read<'a>(buf: &mut &'a [u8]) -> (r: Result<(usize, Self, &'a [u8]), Errno>)
        requires
            Self::size_spec() + 3 <= usize::MAX,
        ensures
            ({
                let b = old(buf)@;
                if nlmsg_parse_ok::<Self>(b) {
                    let h = Self::from_byte_seq(b.take(Self::size_spec()));
                    match r {
                        Ok((sp, hdr, data)) => {
                            &&& sp == nlmsg_consumed::<Self>(b)
                            &&& hdr == h
                            &&& data@ == b.subrange(
                                nlmsg_align_spec(Self::size_spec()),
                                h.len_spec(),
                            )
                            &&& final(buf)@ == b.skip(nlmsg_consumed::<Self>(b))
                        },
                        Err(_) => false,
                    }
                } else {
                    &&& r matches Err(e) && e == Errno(EINVAL)
                    &&& final(buf)@ == b
                }
            }),
    ;
}

impl<T: Pod + NlmsgHeader> NlmsgHeaderExt for T {
    fn read<'a>(buf: &mut &'a [u8]) -> (r: Result<(usize, Self, &'a [u8]), Errno>) {
        nlmsg_read_header::<T>(buf)
    }
}

} // verus!
