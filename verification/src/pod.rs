//! The byte-reinterpretation model.
//!
//! A [`Pod`] type can be built from any byte pattern of its wire size;
//! a [`Packed`] type exposes its full wire representation as bytes with
//! no padding.  Unlike a marker trait over raw memory, both notions are
//! realised here as explicit little-endian codecs with proved
//! contracts, so every reinterpretation performed by the message codecs
//! is ordinary, verified byte arithmetic.

use crate::c::EINVAL;
use crate::errno::einval;
use crate::errno::Errno;
use vstd::bytes::spec_u16_from_le_bytes;
use vstd::bytes::spec_u16_to_le_bytes;
use vstd::bytes::spec_u32_from_le_bytes;
use vstd::bytes::spec_u32_to_le_bytes;
use vstd::bytes::spec_u64_from_le_bytes;
use vstd::bytes::spec_u64_to_le_bytes;
use vstd::bytes::u16_from_le_bytes;
use vstd::bytes::u16_to_le_bytes;
use vstd::bytes::u32_from_le_bytes;
use vstd::bytes::u32_to_le_bytes;
use vstd::bytes::u64_from_le_bytes;
use vstd::bytes::u64_to_le_bytes;
use vstd::prelude::*;
use vstd::slice::slice_subrange;

verus! {

/// A type every byte pattern of its wire size is a legal value of.
///
/// `from_bytes` decodes a little-endian wire image of exactly
/// `size_spec()` bytes; it is total over such images.
pub trait Pod: Sized {
    /// Wire size of the type in bytes.
    spec fn size_spec() -> int;

    /// The value decoded from the byte image `b`.
    spec fn from_byte_seq(b: Seq<u8>) -> Self;

    /// Wire size of the type in bytes.
    fn size() -> (n: usize)
        ensures
            n == Self::size_spec(),
            0 < n,
    ;

    /// Decodes a value from a byte image of exactly the wire size.
    fn from_bytes(b: &[u8]) -> (r: Self)
        requires
            b@.len() == Self::size_spec(),
        ensures
            r == Self::from_byte_seq(b@),
    ;
}

/// A type whose wire representation has no padding bytes, so all of it
/// may be exposed as bytes.
pub trait Packed: Sized {
    /// The wire image of the value.
    spec fn as_byte_seq(&self) -> Seq<u8>;

    /// Encodes the value into its wire image.
    fn to_bytes(&self) -> (r: Vec<u8>)
        ensures
            r@ == self.as_byte_seq(),
    ;
}

/// The signed value whose two's-complement image is `v`.
pub open spec fn i8_from_u8(v: u8) -> i8 {
    if v < 0x80 {
        v as i8
    } else {
        (v - 0x100) as i8
    }
}

/// The two's-complement image of `v`.
pub open spec fn u8_from_i8(v: i8) -> u8 {
    if v >= 0 {
        v as u8
    } else {
        (v + 0x100) as u8
    }
}

/// The signed value whose two's-complement image is `v`.
pub open spec fn i16_from_u16(v: u16) -> i16 {
    if v < 0x8000 {
        v as i16
    } else {
        (v - 0x1_0000) as i16
    }
}

/// The two's-complement image of `v`.
pub open spec fn u16_from_i16(v: i16) -> u16 {
    if v >= 0 {
        v as u16
    } else {
        (v + 0x1_0000) as u16
    }
}

/// The signed value whose two's-complement image is `v`.
pub open spec fn i32_from_u32(v: u32) -> i32 {
    if v < 0x8000_0000 {
        v as i32
    } else {
        (v - 0x1_0000_0000) as i32
    }
}

/// The two's-complement image of `v`.
pub open spec fn u32_from_i32(v: i32) -> u32 {
    if v >= 0 {
        v as u32
    } else {
        (v + 0x1_0000_0000) as u32
    }
}

/// The signed value whose two's-complement image is `v`.
pub open spec fn i64_from_u64(v: u64) -> i64 {
    if v < 0x8000_0000_0000_0000 {
        v as i64
    } else {
        (v - 0x1_0000_0000_0000_0000) as i64
    }
}

/// The two's-complement image of `v`.
pub open spec fn u64_from_i64(v: i64) -> u64 {
    if v >= 0 {
        v as u64
    } else {
        (v + 0x1_0000_0000_0000_0000) as u64
    }
}

/// Reinterprets an unsigned 32-bit value as signed.
pub(crate) fn u32_to_i32(v: u32) -> (r: i32)
    ensures
        r == i32_from_u32(v),
{
    if v < 0x8000_0000 {
        v as i32
    } else {
        ((v as i64) - 0x1_0000_0000i64) as i32
    }
}

/// Reinterprets a signed 32-bit value as unsigned.
pub(crate) fn i32_to_u32(v: i32) -> (r: u32)
    ensures
        r == u32_from_i32(v),
{
    if v >= 0 {
        v as u32
    } else {
        ((v as i64) + 0x1_0000_0000i64) as u32
    }
}

/// Copies `src` over the bytes of `buf` starting at `at`; the copy must
/// fit inside `buf`.
///
/// This is the one primitive through which the codecs write into a
/// buffer.
pub(crate) fn copy_into(buf: &mut Vec<u8>, at: usize, src: &[u8])
    requires
        at + src@.len() <= old(buf)@.len(),
    ensures
        final(buf)@.len() == old(buf)@.len(),
        final(buf)@.subrange(at as int, at + src@.len()) == src@,
        forall|i: int|
            0 <= i < old(buf)@.len() && !(at <= i < at + src@.len()) ==> final(buf)@[i] == old(
                buf,
            )@[i],
{
    let total: usize = buf.len();
    let mut k: usize = 0;
    while k < src.len()
        invariant
            buf@.len() == total,
            at + src@.len() <= buf@.len(),
            buf@.len() == old(buf)@.len(),
            0 <= k <= src@.len(),
            forall|i: int| 0 <= i < k ==> buf@[at + i] == src@[i],
            forall|i: int|
                0 <= i < buf@.len() && !(at <= i < at + k) ==> buf@[i] == old(buf)@[i],
        decreases src@.len() - k,
    {
        let b = src[k];
        buf[at + k] = b;
        k = k + 1;
    }
    proof {
        assert(final(buf)@.subrange(at as int, at + src@.len()) =~= src@);
    }
}

impl Pod for u8 {
    open spec fn size_spec() -> int {
        1
    }

    open spec fn from_byte_seq(b: Seq<u8>) -> u8 {
        b[0]
    }

    fn size() -> (n: usize) {
        1
    }

    fn from_bytes(b: &[u8]) -> (r: u8) {
        b[0]
    }
}

impl Packed for u8 {
    open spec fn as_byte_seq(&self) -> Seq<u8> {
        seq![*self]
    }

    fn to_bytes(&self) -> (r: Vec<u8>) {
        let mut v: Vec<u8> = Vec::new();
        v.push(*self);
        proof {
            assert(v@ =~= self.as_byte_seq());
        }
        v
    }
}

impl Pod for u16 {
    open spec fn size_spec() -> int {
        2
    }

    open spec fn from_byte_seq(b: Seq<u8>) -> u16 {
        spec_u16_from_le_bytes(b)
    }

    fn size() -> (n: usize) {
        2
    }

    fn from_bytes(b: &[u8]) -> (r: u16) {
        u16_from_le_bytes(b)
    }
}

impl Packed for u16 {
    open spec fn as_byte_seq(&self) -> Seq<u8> {
        spec_u16_to_le_bytes(*self)
    }

    fn to_bytes(&self) -> (r: Vec<u8>) {
        u16_to_le_bytes(*self)
    }
}

impl Pod for u32 {
    open spec fn size_spec() -> int {
        4
    }

    open spec fn from_byte_seq(b: Seq<u8>) -> u32 {
        spec_u32_from_le_bytes(b)
    }

    fn size() -> (n: usize) {
        4
    }

    fn from_bytes(b: &[u8]) -> (r: u32) {
        u32_from_le_bytes(b)
    }
}

impl Packed for u32 {
    open spec fn as_byte_seq(&self) -> Seq<u8> {
        spec_u32_to_le_bytes(*self)
    }

    fn to_bytes(&self) -> (r: Vec<u8>) {
        u32_to_le_bytes(*self)
    }
}

impl Pod for u64 {
    open spec fn size_spec() -> int {
        8
    }

    open spec fn from_byte_seq(b: Seq<u8>) -> u64 {
        spec_u64_from_le_bytes(b)
    }

    fn size() -> (n: usize) {
        8
    }

    fn from_bytes(b: &[u8]) -> (r: u64) {
        u64_from_le_bytes(b)
    }
}

impl Packed for u64 {
    open spec fn as_byte_seq(&self) -> Seq<u8> {
        spec_u64_to_le_bytes(*self)
    }

    fn to_bytes(&self) -> (r: Vec<u8>) {
        u64_to_le_bytes(*self)
    }
}

impl Pod for i8 {
    open spec fn size_spec() -> int {
        1
    }

    open spec fn from_byte_seq(b: Seq<u8>) -> i8 {
        i8_from_u8(b[0])
    }

    fn size() -> (n: usize) {
        1
    }

    fn from_bytes(b: &[u8]) -> (r: i8) {
        let v: u8 = b[0];
        if v < 0x80 {
            v as i8
        } else {
            ((v as i16) - 0x100) as i8
        }
    }
}

impl Packed for i8 {
    open spec fn as_byte_seq(&self) -> Seq<u8> {
        seq![u8_from_i8(*self)]
    }

    fn to_bytes(&self) -> (r: Vec<u8>) {
        let v: u8 = if *self >= 0 {
            *self as u8
        } else {
            ((*self as i16) + 0x100) as u8
        };
        let mut out: Vec<u8> = Vec::new();
        out.push(v);
        proof {
            assert(out@ =~= self.as_byte_seq());
        }
        out
    }
}

impl Pod for i16 {
    open spec fn size_spec() -> int {
        2
    }

    open spec fn from_byte_seq(b: Seq<u8>) -> i16 {
        i16_from_u16(spec_u16_from_le_bytes(b))
    }

    fn size() -> (n: usize) {
        2
    }

    fn from_bytes(b: &[u8]) -> (r: i16) {
        let v = u16_from_le_bytes(b);
        if v < 0x8000 {
            v as i16
        } else {
            ((v as i32) - 0x1_0000) as i16
        }
    }
}

impl Packed for i16 {
    open spec fn as_byte_seq(&self) -> Seq<u8> {
        spec_u16_to_le_bytes(u16_from_i16(*self))
    }

    fn to_bytes(&self) -> (r: Vec<u8>) {
        let v: u16 = if *self >= 0 {
            *self as u16
        } else {
            ((*self as i32) + 0x1_0000) as u16
        };
        u16_to_le_bytes(v)
    }
}

impl Pod for i32 {
    open spec fn size_spec() -> int {
        4
    }

    open spec fn from_byte_seq(b: Seq<u8>) -> i32 {
        i32_from_u32(spec_u32_from_le_bytes(b))
    }

    fn size() -> (n: usize) {
        4
    }

    fn from_bytes(b: &[u8]) -> (r: i32) {
        let v = u32_from_le_bytes(b);
        if v < 0x8000_0000 {
            v as i32
        } else {
            ((v as i64) - 0x1_0000_0000i64) as i32
        }
    }
}

impl Packed for i32 {
    open spec fn as_byte_seq(&self) -> Seq<u8> {
        spec_u32_to_le_bytes(u32_from_i32(*self))
    }

    fn to_bytes(&self) -> (r: Vec<u8>) {
        let v: u32 = if *self >= 0 {
            *self as u32
        } else {
            ((*self as i64) + 0x1_0000_0000i64) as u32
        };
        u32_to_le_bytes(v)
    }
}

impl Pod for i64 {
    open spec fn size_spec() -> int {
        8
    }

    open spec fn from_byte_seq(b: Seq<u8>) -> i64 {
        i64_from_u64(spec_u64_from_le_bytes(b))
    }

    fn size() -> (n: usize) {
        8
    }

    fn from_bytes(b: &[u8]) -> (r: i64) {
        let v = u64_from_le_bytes(b);
        if v < 0x8000_0000_0000_0000 {
            v as i64
        } else {
            -((u64::MAX - v) as i64) - 1
        }
    }
}

impl Packed for i64 {
    open spec fn as_byte_seq(&self) -> Seq<u8> {
        spec_u64_to_le_bytes(u64_from_i64(*self))
    }

    fn to_bytes(&self) -> (r: Vec<u8>) {
        let v: u64 = if *self >= 0 {
            *self as u64
        } else {
            u64::MAX - ((-(*self + 1)) as u64)
        };
        proof {
            assert(v == u64_from_i64(*self));
        }
        u64_to_le_bytes(v)
    }
}

/// Returns the value whose wire image is all zero bytes.
pub fn pod_zeroed<T: Pod>() -> (r: T)
    ensures
        r == T::from_byte_seq(Seq::new(T::size_spec() as nat, |i: int| 0u8)),
{
    let n = T::size();
    let z: Vec<u8> = vec![0u8; n];
    proof {
        assert(z@ =~= Seq::new(T::size_spec() as nat, |i: int| 0u8));
    }
    T::from_bytes(z.as_slice())
}

/// Decodes a `T` from `u`; the sizes must match exactly.
pub fn pod_read<T: Pod>(u: &[u8]) -> (r: Result<T, Errno>)
    ensures
        u@.len() == T::size_spec() ==> r == Result::<T, Errno>::Ok(T::from_byte_seq(u@)),
        u@.len() != T::size_spec() ==> r == Result::<T, Errno>::Err(Errno(EINVAL)),
{
    if u.len() != T::size() {
        return einval();
    }
    Ok(T::from_bytes(u))
}

/// Decodes a `T` from an initial portion of `u`; `u` must be at least
/// as large as `T`.
pub fn pod_read_init<T: Pod>(u: &[u8]) -> (r: Result<T, Errno>)
    ensures
        u@.len() >= T::size_spec() ==> r == Result::<T, Errno>::Ok(
            T::from_byte_seq(u@.take(T::size_spec())),
        ),
        u@.len() < T::size_spec() ==> r == Result::<T, Errno>::Err(Errno(EINVAL)),
{
    let n = T::size();
    if u.len() < n {
        return einval();
    }
    let prefix = slice_subrange(u, 0, n);
    Ok(T::from_bytes(prefix))
}

/// Overwrites `t` with the value decoded from `u`; the sizes must match
/// exactly.
pub fn pod_write<T: Pod>(u: &[u8], t: &mut T) -> (r: Result<(), Errno>)
    ensures
        u@.len() == T::size_spec() ==> r == Result::<(), Errno>::Ok(()) && *final(t)
            == T::from_byte_seq(u@),
        u@.len() != T::size_spec() ==> r == Result::<(), Errno>::Err(Errno(EINVAL)) && *final(t)
            == *old(t),
{
    if u.len() != T::size() {
        return einval();
    }
    *t = T::from_bytes(u);
    Ok(())
}

/// Decodes `u` as a sequence of back-to-back `T` images; the length of
/// `u` must be a multiple of the size of `T`.
pub fn pod_iter<T: Pod>(u: &[u8]) -> (r: Result<Vec<T>, Errno>)
    ensures
        u@.len() as int % T::size_spec() == 0 ==> match r {
            Ok(v) => v@.len() == u@.len() as int / T::size_spec() && forall|i: int|
                0 <= i < v@.len() ==> v@[i] == T::from_byte_seq(
                    #[trigger] u@.subrange(i * T::size_spec(), (i + 1) * T::size_spec()),
                ),
            Err(_) => false,
        },
        u@.len() as int % T::size_spec() != 0 ==> r == Result::<Vec<T>, Errno>::Err(Errno(EINVAL)),
{
    let n = T::size();
    if u.len() % n != 0 {
        return einval();
    }
    let count = u.len() / n;
    proof {
        vstd::arithmetic::div_mod::lemma_fundamental_div_mod(u@.len() as int, n as int);
    }
    let mut out: Vec<T> = Vec::new();
    let mut i: usize = 0;
    while i < count
        invariant
            n == T::size_spec(),
            0 < n,
            count == u@.len() as int / T::size_spec(),
            u@.len() as int % T::size_spec() == 0,
            u@.len() == count * n,
            u@.len() <= usize::MAX,
            0 <= i <= count,
            out@.len() == i,
            forall|j: int|
                0 <= j < i ==> out@[j] == T::from_byte_seq(
                    #[trigger] u@.subrange(j * T::size_spec(), (j + 1) * T::size_spec()),
                ),
        decreases count - i,
    {
        proof {
            assert((i + 1) * n == i * n + n) by (nonlinear_arith);
            assert(i * n >= 0) by (nonlinear_arith)
                requires
                    i >= 0 && n > 0,
            ;
            assert((i + 1) * n <= count * n) by (nonlinear_arith)
                requires
                    i + 1 <= count && n > 0,
            ;
            assert(i * n + n <= u@.len());
        }
        let chunk = slice_subrange(u, i * n, i * n + n);
        out.push(T::from_bytes(chunk));
        i = i + 1;
    }
    Ok(out)
}

/// Spec-level concatenation of the wire images of a sequence of values.
pub open spec fn byte_seq_of_all<T: Packed>(s: Seq<T>) -> Seq<u8>
    decreases s.len(),
{
    if s.len() == 0 {
        Seq::empty()
    } else {
        byte_seq_of_all(s.drop_last()) + s.last().as_byte_seq()
    }
}

proof fn lemma_byte_seq_of_all_step<T: Packed>(s: Seq<T>, i: int)
    requires
        0 <= i < s.len(),
    ensures
        byte_seq_of_all(s.take(i + 1)) == byte_seq_of_all(s.take(i)) + s[i].as_byte_seq(),
{
    let t = s.take(i + 1);
    assert(t.drop_last() =~= s.take(i));
    assert(t.last() == s[i]);
}

/// Returns the concatenated wire image of every element of `t`.
pub fn as_bytes<T: Packed>(t: &[T]) -> (r: Vec<u8>)
    ensures
        r@ == byte_seq_of_all(t@),
{
    let mut out: Vec<u8> = Vec::new();
    let mut i: usize = 0;
    proof {
        assert(t@.take(0) =~= Seq::<T>::empty());
    }
    while i < t.len()
        invariant
            0 <= i <= t@.len(),
            out@ == byte_seq_of_all(t@.take(i as int)),
        decreases t@.len() - i,
    {
        let item = slice_subrange(t, i, i + 1);
        let mut bs = item[0].to_bytes();
        proof {
            assert(item@[0] == t@[i as int]);
            lemma_byte_seq_of_all_step(t@, i as int);
        }
        out.append(&mut bs);
        i = i + 1;
    }
    proof {
        assert(t@.take(t@.len() as int) =~= t@);
    }
    out
}

} // verus!
