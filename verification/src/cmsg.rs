//! The control-message (`cmsg`) codec.
//!
//! A cmsg record on the wire is an aligned 16-byte header followed by
//! the payload, with implicit padding up to the platform alignment
//! boundary between records.  The header's `cmsg_len` field holds the
//! aligned header size plus the payload size, excluding the trailing
//! padding.  Reading and writing both move a cursor forward by the
//! padded size of the record just processed, and both fail — never
//! read or write out of bounds — when the buffer is too small or a
//! header is malformed.

use crate::c::cmsghdr;
use crate::c::EINVAL;
use crate::errno::einval;
use crate::errno::Errno;
use crate::pod::copy_into;
use crate::pod::i32_from_u32;
use crate::pod::i32_to_u32;
use crate::pod::u32_from_i32;
use crate::pod::u32_to_i32;
use crate::pod::Packed;
use crate::pod::Pod;
use vstd::arithmetic::div_mod::lemma_div_is_ordered;
use vstd::arithmetic::div_mod::lemma_fundamental_div_mod;
use vstd::arithmetic::div_mod::lemma_mod_multiples_basic;
use vstd::bytes::spec_u32_from_le_bytes;
use vstd::bytes::spec_u32_to_le_bytes;
use vstd::bytes::spec_u64_from_le_bytes;
use vstd::bytes::spec_u64_to_le_bytes;
use vstd::bytes::u32_from_le_bytes;
use vstd::bytes::u32_to_le_bytes;
use vstd::bytes::u64_from_le_bytes;
use vstd::bytes::u64_to_le_bytes;
use vstd::prelude::*;
use vstd::slice::slice_subrange;

verus! {

/// Alignment mask of the cmsg boundary: pointer width minus one on
/// 64-bit Linux targets.
pub const CMSG_ALIGN_MASK: usize = 7;

/// Byte size of the control-message header on the wire.
pub const CMSG_HDR_SIZE: usize = 16;

/// `n` rounded up to the next multiple of the cmsg alignment boundary.
pub open spec fn cmsg_align_spec(n: int) -> int {
    ((n + 7) / 8) * 8
}

/// Basic shape of the alignment function: it rounds up, by less than
/// one boundary, to a multiple of the boundary.
pub proof fn lemma_cmsg_align_bounds(n: int)
    requires
        n >= 0,
    ensures
        n <= cmsg_align_spec(n) <= n + 7,
        cmsg_align_spec(n) % 8 == 0,
{
    lemma_fundamental_div_mod(n + 7, 8);
    lemma_mod_multiples_basic((n + 7) / 8, 8);
}

/// Alignment is monotone.
pub proof fn lemma_cmsg_align_monotone(a: int, b: int)
    requires
        0 <= a <= b,
    ensures
        cmsg_align_spec(a) <= cmsg_align_spec(b),
{
    lemma_div_is_ordered(a + 7, b + 7, 8);
}

fn align(size: usize) -> (r: usize)
    requires
        size + CMSG_ALIGN_MASK <= usize::MAX,
    ensures
        r == cmsg_align_spec(size as int),
{
    proof {
        lemma_cmsg_align_bounds(size as int);
    }
    ((size + CMSG_ALIGN_MASK) / (CMSG_ALIGN_MASK + 1)) * (CMSG_ALIGN_MASK + 1)
}

/// The number of buffer bytes one record with a payload of `n` bytes
/// occupies: the aligned header followed by the aligned payload.
pub open spec fn cmsg_space_spec(n: int) -> int {
    16 + cmsg_align_spec(n)
}

/// Returns the number of bytes needed to store a cmsg with data-length
/// `data_len`.
pub fn cmsg_space(data_len: usize) -> (r: usize)
    requires
        data_len + CMSG_HDR_SIZE + CMSG_ALIGN_MASK <= usize::MAX,
    ensures
        r == cmsg_space_spec(data_len as int),
{
    proof {
        lemma_cmsg_align_bounds(data_len as int);
    }
    CMSG_HDR_SIZE + align(data_len)
}

/// Sizing is the sum of the two aligned parts: the record size equals
/// the aligned header size plus the aligned payload size.
pub proof fn lemma_cmsg_space_sizing(n: int)
    requires
        n >= 0,
    ensures
        cmsg_space_spec(n) == cmsg_align_spec(CMSG_HDR_SIZE as int) + cmsg_align_spec(n),
{
}

/// Sizing is monotonically non-decreasing in the payload length.
pub proof fn lemma_cmsg_space_monotone(a: int, b: int)
    requires
        0 <= a <= b,
    ensures
        cmsg_space_spec(a) <= cmsg_space_spec(b),
{
    lemma_cmsg_align_monotone(a, b);
}

impl Pod for cmsghdr {
    open spec fn size_spec() -> int {
        16
    }

    open spec fn from_byte_seq(b: Seq<u8>) -> cmsghdr {
        cmsghdr {
            cmsg_level: i32_from_u32(spec_u32_from_le_bytes(b.subrange(0, 4))),
            cmsg_type: i32_from_u32(spec_u32_from_le_bytes(b.subrange(4, 8))),
            cmsg_len: spec_u64_from_le_bytes(b.subrange(8, 16)),
        }
    }

    fn size() -> (n: usize) {
        16
    }

    fn from_bytes(b: &[u8]) -> (r: cmsghdr) {
        let level = u32_to_i32(u32_from_le_bytes(slice_subrange(b, 0, 4)));
        let ty = u32_to_i32(u32_from_le_bytes(slice_subrange(b, 4, 8)));
        let len = u64_from_le_bytes(slice_subrange(b, 8, 16));
        cmsghdr { cmsg_level: level, cmsg_type: ty, cmsg_len: len }
    }
}

impl Packed for cmsghdr {
    open spec fn as_byte_seq(&self) -> Seq<u8> {
        spec_u32_to_le_bytes(u32_from_i32(self.cmsg_level)) + spec_u32_to_le_bytes(
            u32_from_i32(self.cmsg_type),
        ) + spec_u64_to_le_bytes(self.cmsg_len)
    }

    fn to_bytes(&self) -> (r: Vec<u8>) {
        let mut out = u32_to_le_bytes(i32_to_u32(self.cmsg_level));
        let mut ty = u32_to_le_bytes(i32_to_u32(self.cmsg_type));
        let mut len = u64_to_le_bytes(self.cmsg_len);
        out.append(&mut ty);
        out.append(&mut len);
        proof {
            assert(out@ =~= self.as_byte_seq());
        }
        out
    }
}

/// Decoding a control-message header undoes encoding it.
pub proof fn lemma_cmsghdr_round_trip(h: cmsghdr)
    ensures
        h.as_byte_seq().len() == 16,
        cmsghdr::from_byte_seq(h.as_byte_seq()) == h,
{
    vstd::bytes::lemma_auto_spec_u32_to_from_le_bytes();
    vstd::bytes::lemma_auto_spec_u64_to_from_le_bytes();
    let b = h.as_byte_seq();
    assert(b.subrange(0, 4) =~= spec_u32_to_le_bytes(u32_from_i32(h.cmsg_level)));
    assert(b.subrange(4, 8) =~= spec_u32_to_le_bytes(u32_from_i32(h.cmsg_type)));
    assert(b.subrange(8, 16) =~= spec_u64_to_le_bytes(h.cmsg_len));
}

/// A write cursor: an owned buffer of fixed size together with the
/// position up to which records have been written.
///
/// The position never passes the end of the buffer, and writing never
/// grows or shrinks the buffer.
pub struct WriteCursor {
    buf: Vec<u8>,
    pos: usize,
}

impl WriteCursor {
    /// The bytes of the backing buffer.
    pub closed spec fn bytes(&self) -> Seq<u8> {
        self.buf@
    }

    /// The write position.
    pub closed spec fn pos_spec(&self) -> int {
        self.pos as int
    }

    /// The cursor position lies inside the buffer.
    pub open spec fn wf(&self) -> bool {
        self.pos_spec() <= self.bytes().len()
    }

    /// The bytes left between the write position and the end of the
    /// buffer.
    pub open spec fn remaining_spec(&self) -> int {
        self.bytes().len() - self.pos_spec()
    }

    /// Wraps a buffer; writing starts at its first byte.
    pub fn new(buf: Vec<u8>) -> (r: WriteCursor)
        ensures
            r.bytes() == buf@,
            r.pos_spec() == 0,
            r.wf(),
    {
        WriteCursor { buf, pos: 0 }
    }

    /// Returns the current write position.
    pub fn position(&self) -> (r: usize)
        ensures
            r == self.pos_spec(),
    {
        self.pos
    }

    /// Returns the number of bytes left after the write position.
    pub fn remaining(&self) -> (r: usize)
        requires
            self.wf(),
        ensures
            r == self.remaining_spec(),
    {
        self.buf.len() - self.pos
    }

    /// Returns the backing buffer.
    pub fn into_vec(self) -> (r: Vec<u8>)
        ensures
            r@ == self.bytes(),
    {
        self.buf
    }
}

/// The header value actually stored by a write: the caller's header
/// with `cmsg_len` set to the aligned header size plus the payload
/// size.
pub open spec fn cmsg_written_hdr(hdr: cmsghdr, data_len: int) -> cmsghdr {
    cmsghdr { cmsg_len: (16 + data_len) as u64, ..hdr }
}

/// Writes a cmsg record at the cursor.
///
/// On success the header (with its length field set) and the payload
/// stand at the cursor position, all other bytes are unchanged, the
/// cursor has advanced by the record's padded size, and that size is
/// returned.  If fewer than `cmsg_space_spec(|data|)` bytes remain,
/// nothing changes and the write fails — a payload one byte too large
/// is rejected, never truncated.
pub fn cmsg_write(buf: &mut WriteCursor, hdr: cmsghdr, data: &[u8]) -> (r: Result<usize, Errno>)
    requires
        old(buf).wf(),
        data@.len() + CMSG_HDR_SIZE + CMSG_ALIGN_MASK <= usize::MAX,
    ensures
        final(buf).wf(),
        ({
            let space = cmsg_space_spec(data@.len() as int);
            let pos = old(buf).pos_spec();
            if old(buf).remaining_spec() >= space {
                &&& r == Result::<usize, Errno>::Ok(space as usize)
                &&& final(buf).bytes().len() == old(buf).bytes().len()
                &&& final(buf).pos_spec() == pos + space
                &&& final(buf).bytes().subrange(pos, pos + 16) == cmsg_written_hdr(
                    hdr,
                    data@.len() as int,
                ).as_byte_seq()
                &&& final(buf).bytes().subrange(pos + 16, pos + 16 + data@.len()) == data@
                &&& forall|i: int|
                    0 <= i < old(buf).bytes().len() && !(pos <= i < pos + 16 + data@.len())
                        ==> final(buf).bytes()[i] == old(buf).bytes()[i]
            } else {
                &&& r == Result::<usize, Errno>::Err(Errno(EINVAL))
                &&& *final(buf) == *old(buf)
            }
        }),
{
    proof {
        lemma_cmsg_align_bounds(data@.len() as int);
    }
    let space = cmsg_space(data.len());
    if buf.buf.len() - buf.pos < space {
        return einval();
    }
    let pos = buf.pos;
    let mut h = hdr;
    h.cmsg_len = (CMSG_HDR_SIZE + data.len()) as u64;
    let hb = h.to_bytes();
    proof {
        lemma_cmsghdr_round_trip(h);
    }
    copy_into(&mut buf.buf, pos, hb.as_slice());
    copy_into(&mut buf.buf, pos + CMSG_HDR_SIZE, data);
    buf.pos = pos + space;
    proof {
        assert(h == cmsg_written_hdr(hdr, data@.len() as int));
        assert(buf.bytes().subrange(pos as int, pos + 16) =~= hb@);
    }
    Ok(space)
}

/// A buffer prefix parses as one well-formed cmsg record: it holds a
/// full aligned header whose declared length fits a `usize`, covers at
/// least the header, admits alignment slack without overflow, and lies
/// within the buffer.
pub open spec fn cmsg_parse_ok(b: Seq<u8>) -> bool {
    &&& b.len() >= 16
    &&& cmsghdr::from_byte_seq(b).cmsg_len <= usize::MAX as u64
    &&& cmsghdr::from_byte_seq(b).cmsg_len >= 16
    &&& cmsghdr::from_byte_seq(b).cmsg_len as int + 7 <= usize::MAX as int
    &&& b.len() >= cmsg_align_spec(cmsghdr::from_byte_seq(b).cmsg_len as int)
}

/// Round trip: the bytes laid out by a successful `cmsg_write` parse
/// back as one well-formed record carrying the written header, a
/// payload byte-equal to the written payload, and a consumed length of
/// exactly `cmsg_space_spec(|data|)`.
///
/// The premises are the byte-level postconditions of `cmsg_write` for a
/// record written at the start of `w`; the conclusions discharge the
/// success case of `cmsg_read` on the same bytes.
pub proof fn lemma_cmsg_round_trip(w: Seq<u8>, hdr: cmsghdr, data: Seq<u8>)
    requires
        data.len() + 23 <= usize::MAX,
        w.len() >= cmsg_space_spec(data.len() as int),
        w.subrange(0, 16) == cmsg_written_hdr(hdr, data.len() as int).as_byte_seq(),
        w.subrange(16, 16 + data.len() as int) == data,
    ensures
        cmsg_parse_ok(w),
        cmsghdr::from_byte_seq(w) == cmsg_written_hdr(hdr, data.len() as int),
        cmsghdr::from_byte_seq(w).cmsg_len as int == 16 + data.len(),
        w.subrange(16, cmsghdr::from_byte_seq(w).cmsg_len as int) == data,
        cmsg_align_spec(cmsghdr::from_byte_seq(w).cmsg_len as int) == cmsg_space_spec(
            data.len() as int,
        ),
{
    let h2 = cmsg_written_hdr(hdr, data.len() as int);
    lemma_cmsghdr_round_trip(h2);
    let hb = h2.as_byte_seq();
    assert(w.subrange(0, 4) =~= hb.subrange(0, 4));
    assert(w.subrange(4, 8) =~= hb.subrange(4, 8));
    assert(w.subrange(8, 16) =~= hb.subrange(8, 16));
    assert(cmsghdr::from_byte_seq(w) == cmsghdr::from_byte_seq(hb));
    assert(h2.cmsg_len as int == 16 + data.len());
    lemma_cmsg_align_bounds(data.len() as int);
    assert(cmsg_align_spec(16 + data.len() as int) == 16 + cmsg_align_spec(data.len() as int)) by {
        vstd::arithmetic::div_mod::lemma_hoist_over_denominator(data.len() as int + 7, 2, 8);
    }
}

/// Sequential writes read back in order: two records written back to
/// back parse back in the same order, each with its own header and a
/// payload byte-equal to the one written, at the original boundaries.
///
/// The premises are the byte-level postconditions of two successful
/// `cmsg_write` calls, the second at the position where the first one
/// left the cursor.
pub proof fn lemma_cmsg_sequential_round_trip(
    w: Seq<u8>,
    h1: cmsghdr,
    d1: Seq<u8>,
    h2: cmsghdr,
    d2: Seq<u8>,
)
    requires
        d1.len() + 23 <= usize::MAX,
        d2.len() + 23 <= usize::MAX,
        w.len() >= cmsg_space_spec(d1.len() as int) + cmsg_space_spec(d2.len() as int),
        w.subrange(0, 16) == cmsg_written_hdr(h1, d1.len() as int).as_byte_seq(),
        w.subrange(16, 16 + d1.len() as int) == d1,
        w.subrange(
            cmsg_space_spec(d1.len() as int),
            cmsg_space_spec(d1.len() as int) + 16,
        ) == cmsg_written_hdr(h2, d2.len() as int).as_byte_seq(),
        w.subrange(
            cmsg_space_spec(d1.len() as int) + 16,
            cmsg_space_spec(d1.len() as int) + 16 + d2.len() as int,
        ) == d2,
    ensures
        cmsg_parse_ok(w),
        cmsghdr::from_byte_seq(w) == cmsg_written_hdr(h1, d1.len() as int),
        w.subrange(16, cmsghdr::from_byte_seq(w).cmsg_len as int) == d1,
        cmsg_align_spec(cmsghdr::from_byte_seq(w).cmsg_len as int) == cmsg_space_spec(
            d1.len() as int,
        ),
        cmsg_parse_ok(w.skip(cmsg_space_spec(d1.len() as int))),
        cmsghdr::from_byte_seq(w.skip(cmsg_space_spec(d1.len() as int))) == cmsg_written_hdr(
            h2,
            d2.len() as int,
        ),
        w.skip(cmsg_space_spec(d1.len() as int)).subrange(16, 16 + d2.len() as int) == d2,
{
    let s1 = cmsg_space_spec(d1.len() as int);
    lemma_cmsg_align_bounds(d1.len() as int);
    lemma_cmsg_align_bounds(d2.len() as int);
    lemma_cmsg_round_trip(w, h1, d1);
    let rest = w.skip(s1);
    assert(rest.subrange(0, 16) =~= w.subrange(s1, s1 + 16));
    assert(rest.subrange(16, 16 + d2.len() as int) =~= w.subrange(s1 + 16, s1 + 16 + d2.len() as int));
    lemma_cmsg_round_trip(rest, h2, d2);
}

/// Reads a cmsg record from the buffer.
///
/// On success returns the padded space the record occupies, the parsed
/// header, and a slice covering exactly the payload, and advances the
/// buffer past the padded record.  On any malformed or truncated input
/// the buffer is unchanged and the read fails, rather than going out of
/// bounds.
pub fn cmsg_read<'a>(buf: &mut &'a [u8]) -> (r: Result<(usize, cmsghdr, &'a [u8]), Errno>)
    ensures
        ({
            let b = old(buf)@;
            if cmsg_parse_ok(b) {
                let h = cmsghdr::from_byte_seq(b);
                let space = cmsg_align_spec(h.cmsg_len as int);
                match r {
                    Ok((sp, hdr, data)) => {
                        &&& sp == space
                        &&& hdr == h
                        &&& data@ == b.subrange(16, h.cmsg_len as int)
                        &&& final(buf)@ == b.skip(space)
                    },
                    Err(_) => false,
                }
            } else {
                &&& r == Result::<(usize, cmsghdr, &'a [u8]), Errno>::Err(Errno(EINVAL))
                &&& final(buf)@ == b
            }
        }),
{
    let cur: &'a [u8] = *buf;
    if cur.len() < CMSG_HDR_SIZE {
        return einval();
    }
    let hb = slice_subrange(cur, 0, CMSG_HDR_SIZE);
    proof {
        assert(hb@.subrange(0, 4) =~= cur@.subrange(0, 4));
        assert(hb@.subrange(4, 8) =~= cur@.subrange(4, 8));
        assert(hb@.subrange(8, 16) =~= cur@.subrange(8, 16));
    }
    let hdr = cmsghdr::from_bytes(hb);
    if hdr.cmsg_len > usize::MAX as u64 {
        return einval();
    }
    let cmsg_len = hdr.cmsg_len as usize;
    if cmsg_len < CMSG_HDR_SIZE {
        return einval();
    }
    if usize::MAX - cmsg_len < CMSG_ALIGN_MASK {
        return einval();
    }
    let space = align(cmsg_len);
    if cur.len() < space {
        return einval();
    }
    proof {
        lemma_cmsg_align_bounds(cmsg_len as int);
    }
    let data = slice_subrange(cur, CMSG_HDR_SIZE, cmsg_len);
    *buf = slice_subrange(cur, space, cur.len());
    proof {
        assert(final(buf)@ =~= cur@.skip(space as int));
    }
    Ok((space, hdr, data))
}

} // verus!
