//! Nul-terminated byte strings.
//!
//! [`Bstr`] is a plain byte string; [`Ustr`] always carries a trailing
//! nul byte; [`Ustring`] is a growable byte string that is either empty
//! or nul-terminated, so that it can be handed to C APIs without
//! copying.  All three own their bytes.

use vstd::prelude::*;
use vstd::utf8::decode_utf8;
use vstd::utf8::encode_utf8;
use vstd::utf8::valid_utf8;

verus! {

/// Trait for objects which can be viewed as plain bytes.
pub trait Bytes {
    /// The byte image of the value.
    spec fn byte_seq(&self) -> Seq<u8>;

    /// Returns the bytes of the value.
    fn bytes(&self) -> (r: &[u8])
        ensures
            r@ == self.byte_seq(),
    ;
}

impl Bytes for Vec<u8> {
    open spec fn byte_seq(&self) -> Seq<u8> {
        self@
    }

    fn bytes(&self) -> (r: &[u8]) {
        self.as_slice()
    }
}

/// An owned byte string with no further structure.
#[derive(Debug)]
pub struct Bstr {
    bytes: Vec<u8>,
}

impl View for Bstr {
    type V = Seq<u8>;

    closed spec fn view(&self) -> Seq<u8> {
        self.bytes@
    }
}

impl Bytes for Bstr {
    open spec fn byte_seq(&self) -> Seq<u8> {
        self@
    }

    fn bytes(&self) -> (r: &[u8]) {
        self.bytes.as_slice()
    }
}

impl Bstr {
    /// Returns an empty `Bstr`.
    pub fn empty() -> (r: Bstr)
        ensures
            r@ == Seq::<u8>::empty(),
    {
        Bstr { bytes: Vec::new() }
    }

    /// Copies the argument into a `Bstr`.
    pub fn from_bytes(s: &[u8]) -> (r: Bstr)
        ensures
            r@ == s@,
    {
        let mut v: Vec<u8> = Vec::new();
        v.extend_from_slice(s);
        Bstr { bytes: v }
    }

    /// Copies the UTF-8 bytes of `s` into a `Bstr`.
    pub fn from_str(s: &str) -> (r: Bstr)
        ensures
            r@ == encode_utf8(s@),
    {
        Bstr::from_bytes(s.as_bytes())
    }

    /// Returns the bytes of the string.
    pub fn as_bytes(&self) -> (r: &[u8])
        ensures
            r@ == self@,
    {
        self.bytes.as_slice()
    }

    /// Returns the bytes of the string for in-place modification.
    pub fn as_bytes_mut(&mut self) -> (r: &mut Vec<u8>)
        ensures
            r@ == old(self)@,
            final(self)@ == final(r)@,
    {
        &mut self.bytes
    }

    /// Decodes the string as UTF-8.
    pub fn as_str(&self) -> (r: Option<String>)
        ensures
            valid_utf8(self@) ==> (r matches Some(s) && s@ == decode_utf8(self@)),
            !valid_utf8(self@) ==> r matches None,
    {
        match string_from_utf8(self.bytes.clone()) {
            Ok(s) => Some(s),
            Err(_) => None,
        }
    }

    /// The number of bytes of the string.
    pub fn len(&self) -> (r: usize)
        ensures
            r == self@.len(),
    {
        self.bytes.len()
    }

    /// Whether the string has no bytes.
    pub fn is_empty(&self) -> (r: bool)
        ensures
            r == (self@.len() == 0),
    {
        self.bytes.len() == 0
    }

    /// Allocates a new `Ustring` with the contents of this string and a
    /// trailing nul byte.
    pub fn to_ustring(&self) -> (r: Ustring)
        ensures
            r@ == self@ + seq![0u8],
            r.wf(),
    {
        let mut v: Vec<u8> = Vec::new();
        v.extend_from_slice(self.bytes.as_slice());
        v.push(0);
        Ustring { bytes: v }
    }
}

/// An owned byte string whose last byte is nul.
///
/// A distinguished `null` value, returned by [`Ustr::null`], lets
/// callers express "no string" while staying indistinguishable from the
/// empty string in its bytes.
#[derive(Debug)]
pub struct Ustr {
    bytes: Vec<u8>,
    null: bool,
}

impl View for Ustr {
    type V = Seq<u8>;

    closed spec fn view(&self) -> Seq<u8> {
        self.bytes@
    }
}

impl Ustr {
    /// The string ends — and is not empty — with its nul terminator.
    pub open spec fn wf(&self) -> bool {
        self@.len() >= 1 && self@.last() == 0
    }

    /// Whether this value was built by [`Ustr::null`].
    pub closed spec fn is_null_spec(&self) -> bool {
        self.null
    }

    /// Returns an empty `Ustr`: a single nul byte.
    pub fn empty() -> (r: Ustr)
        ensures
            r@ == seq![0u8],
            !r.is_null_spec(),
            r.wf(),
    {
        let mut v: Vec<u8> = Vec::new();
        v.push(0);
        proof {
            assert(v@ =~= seq![0u8]);
        }
        Ustr { bytes: v, null: false }
    }

    /// Returns the unique `Ustr` for which `is_null() == true`.
    ///
    /// Apart from `is_null()`, the returned value is indistinguishable
    /// from `Ustr::empty()`.
    pub fn null() -> (r: Ustr)
        ensures
            r@ == seq![0u8],
            r.is_null_spec(),
            r.wf(),
    {
        let mut v: Vec<u8> = Vec::new();
        v.push(0);
        proof {
            assert(v@ =~= seq![0u8]);
        }
        Ustr { bytes: v, null: true }
    }

    /// Returns `true` iff this `Ustr` was constructed via `Ustr::null`.
    pub fn is_null(&self) -> (r: bool)
        ensures
            r == self.is_null_spec(),
    {
        self.null
    }

    /// Copies the argument into a `Ustr` after checking that it has a
    /// trailing nul byte; otherwise returns `None`.
    pub fn from_bytes(s: &[u8]) -> (r: Option<Ustr>)
        ensures
            s@.len() >= 1 && s@.last() == 0 ==> (r matches Some(u) && u@ == s@ && u.wf()
                && !u.is_null_spec()),
            !(s@.len() >= 1 && s@.last() == 0) ==> r matches None,
    {
        if s.len() == 0 {
            return None;
        }
        if s[s.len() - 1] != 0 {
            return None;
        }
        let mut v: Vec<u8> = Vec::new();
        v.extend_from_slice(s);
        Some(Ustr { bytes: v, null: false })
    }

    /// Copies the UTF-8 bytes of `s` into a `Ustr` after checking that
    /// they end with a nul byte; otherwise returns `None`.
    pub fn from_str(s: &str) -> (r: Option<Ustr>)
        ensures
            ({
                let b = encode_utf8(s@);
                &&& (b.len() >= 1 && b.last() == 0 ==> (r matches Some(u) && u@ == b && u.wf()))
                &&& (!(b.len() >= 1 && b.last() == 0) ==> r matches None)
            }),
    {
        Ustr::from_bytes(s.as_bytes())
    }

    /// Returns the bytes of the string, including the nul terminator.
    pub fn as_bytes_with_nul(&self) -> (r: &[u8])
        ensures
            r@ == self@,
    {
        self.bytes.as_slice()
    }

    /// The number of bytes of the string, including the nul terminator.
    pub fn len_with_nul(&self) -> (r: usize)
        ensures
            r == self@.len(),
    {
        self.bytes.len()
    }

    /// Returns the `Bstr` holding the bytes before the nul terminator.
    pub fn as_bstr(&self) -> (r: Bstr)
        requires
            self.wf(),
        ensures
            r@ == self@.take(self@.len() - 1),
    {
        let end = self.bytes.len() - 1;
        let mut v: Vec<u8> = Vec::new();
        let mut i: usize = 0;
        while i < end
            invariant
                end < self.bytes@.len(),
                0 <= i <= end,
                v@ == self.bytes@.take(i as int),
            decreases end - i,
        {
            let b = self.bytes[i];
            v.push(b);
            proof {
                assert(v@ =~= self.bytes@.take(i + 1));
            }
            i = i + 1;
        }
        proof {
            assert(v@ =~= self@.take(self@.len() - 1));
        }
        Bstr { bytes: v }
    }

    /// Allocates a new `Ustring` with the contents of this string.
    pub fn to_ustring(&self) -> (r: Ustring)
        requires
            self.wf(),
        ensures
            r@ == self@,
            r.wf(),
    {
        let mut v: Vec<u8> = Vec::new();
        v.extend_from_slice(self.bytes.as_slice());
        Ustring { bytes: v }
    }
}

/// A growable byte string that is empty or nul-terminated.
///
/// The empty state lets a fresh `Ustring` exist without allocating; the
/// first operation that needs the terminator inserts it.
#[derive(Debug)]
pub struct Ustring {
    bytes: Vec<u8>,
}

impl View for Ustring {
    type V = Seq<u8>;

    closed spec fn view(&self) -> Seq<u8> {
        self.bytes@
    }
}

impl Ustring {
    /// The string is empty or ends with its nul terminator.
    pub open spec fn wf(&self) -> bool {
        self@.len() == 0 || self@.last() == 0
    }

    /// The bytes of the string without the nul terminator.
    pub open spec fn content_spec(&self) -> Seq<u8> {
        if self@.len() == 0 {
            self@
        } else {
            self@.take(self@.len() - 1)
        }
    }

    /// The view of the string once its terminator exists: an empty
    /// string becomes a single nul byte.
    pub open spec fn init_spec(&self) -> Seq<u8> {
        if self@.len() == 0 {
            seq![0u8]
        } else {
            self@
        }
    }

    /// Creates a new, empty `Ustring` without allocating.
    pub fn new() -> (r: Ustring)
        ensures
            r@ == Seq::<u8>::empty(),
            r.wf(),
    {
        Ustring { bytes: Vec::new() }
    }

    fn init(&mut self)
        requires
            old(self).wf(),
        ensures
            final(self)@ == old(self).init_spec(),
            final(self).wf(),
            final(self)@.len() >= 1,
            final(self)@.last() == 0,
    {
        if self.bytes.len() == 0 {
            self.bytes.push(0);
        }
    }

    /// Reserves space for at least `num` additional bytes.
    pub fn reserve(&mut self, num: usize)
        requires
            old(self).wf(),
        ensures
            final(self)@ == old(self).init_spec(),
            final(self).wf(),
    {
        self.init();
        self.bytes.reserve(num);
    }

    /// Reserves space for exactly `num` additional bytes.
    pub fn reserve_exact(&mut self, additional: usize)
        requires
            old(self).wf(),
        ensures
            final(self)@ == old(self).init_spec(),
            final(self).wf(),
    {
        self.init();
        vec_reserve_exact(&mut self.bytes, additional);
    }

    /// Returns the capacity available for content bytes, excluding the
    /// nul terminator.
    pub fn capacity(&self) -> (r: usize)
        ensures
            self@.len() == 0 ==> r == 0,
            self@.len() >= 1 ==> r >= self@.len() - 1,
    {
        if self.bytes.len() == 0 {
            0
        } else {
            vec_capacity(&self.bytes) - 1
        }
    }

    /// Turns `s` into an `Ustring` by appending a nul byte; an empty
    /// vector stays empty.
    pub fn from_vec(s: Vec<u8>) -> (r: Ustring)
        ensures
            r@ == if s@.len() == 0 {
                s@
            } else {
                s@ + seq![0u8]
            },
            r.wf(),
    {
        let mut s = s;
        if s.len() != 0 {
            s.push(0);
        }
        Ustring { bytes: s }
    }

    /// Checks that `s` is empty or nul-terminated and turns it into an
    /// `Ustring`; otherwise hands `s` back.
    pub fn from_vec_with_nul(s: Vec<u8>) -> (r: Result<Ustring, Vec<u8>>)
        ensures
            s@.len() == 0 || s@.last() == 0 ==> (r matches Ok(u) && u@ == s@ && u.wf()),
            !(s@.len() == 0 || s@.last() == 0) ==> (r matches Err(v) && v@ == s@),
    {
        if s.len() != 0 && s[s.len() - 1] != 0 {
            return Err(s);
        }
        Ok(Ustring { bytes: s })
    }

    /// Returns the underlying vector after removing the nul terminator.
    pub fn into_vec(self) -> (r: Vec<u8>)
        requires
            self.wf(),
        ensures
            r@ == self.content_spec(),
    {
        let mut s = self.bytes;
        if s.len() != 0 {
            s.pop();
        }
        s
    }

    /// Returns the underlying vector, nul terminator included; an empty
    /// string becomes a single nul byte.
    pub fn into_vec_with_nul(self) -> (r: Vec<u8>)
        requires
            self.wf(),
        ensures
            r@ == self.init_spec(),
    {
        let mut s = self.bytes;
        if s.len() == 0 {
            s.push(0);
        }
        s
    }

    /// Turns the UTF-8 bytes of `s` into an `Ustring` by appending a
    /// nul byte.
    pub fn from_string(s: String) -> (r: Ustring)
        ensures
            r@ == if encode_utf8(s@).len() == 0 {
                encode_utf8(s@)
            } else {
                encode_utf8(s@) + seq![0u8]
            },
            r.wf(),
    {
        let b = Bstr::from_str(s.as_str());
        Ustring::from_vec(b.bytes)
    }

    /// Decodes the content bytes — the nul terminator excluded — as
    /// UTF-8; hands the string back unchanged if they are not valid
    /// UTF-8.
    pub fn into_string(self) -> (r: Result<String, Ustring>)
        requires
            self.wf(),
        ensures
            valid_utf8(self.content_spec()) ==> (r matches Ok(s) && s@ == decode_utf8(
                self.content_spec(),
            )),
            !valid_utf8(self.content_spec()) ==> (r matches Err(u) && u@ == self@),
    {
        let ghost orig = self@;
        let v = self.into_vec();
        match string_from_utf8(v) {
            Ok(s) => Ok(s),
            Err(w) => {
                let mut b = w;
                b.push(0);
                proof {
                    assert(b@ =~= orig);
                }
                Err(Ustring { bytes: b })
            },
        }
    }

    /// Decodes the string — the nul terminator included — as UTF-8;
    /// hands the string back unchanged if the bytes are not valid
    /// UTF-8.
    pub fn into_string_with_nul(self) -> (r: Result<String, Ustring>)
        requires
            self.wf(),
        ensures
            valid_utf8(self.init_spec()) ==> (r matches Ok(s) && s@ == decode_utf8(
                self.init_spec(),
            )),
            !valid_utf8(self.init_spec()) ==> (r matches Err(u) && u@ == self.init_spec()),
    {
        let v = self.into_vec_with_nul();
        match string_from_utf8(v) {
            Ok(s) => Ok(s),
            Err(w) => Err(Ustring { bytes: w }),
        }
    }

    /// Appends the bytes, keeping the nul terminator last; appending
    /// nothing changes nothing.
    pub fn push<T: Bytes + ?Sized>(&mut self, bytes: &T)
        requires
            old(self).wf(),
        ensures
            final(self).wf(),
            bytes.byte_seq().len() == 0 ==> final(self)@ == old(self)@,
            bytes.byte_seq().len() > 0 ==> final(self)@ == old(self).content_spec()
                + bytes.byte_seq() + seq![0u8],
    {
        let b = bytes.bytes();
        if b.len() == 0 {
            return ;
        }
        self.init();
        self.bytes.pop();
        self.bytes.extend_from_slice(b);
        self.bytes.push(0);
        proof {
            assert(self@ =~= old(self).content_spec() + bytes.byte_seq() + seq![0u8]);
        }
    }

    /// Returns this string's bytes as a `Ustr`; an empty string yields
    /// the empty `Ustr`.
    pub fn as_ustr(&self) -> (r: Ustr)
        requires
            self.wf(),
        ensures
            r@ == self.init_spec(),
            r.wf(),
            !r.is_null_spec(),
    {
        if self.bytes.len() == 0 {
            Ustr::empty()
        } else {
            let mut v: Vec<u8> = Vec::new();
            v.extend_from_slice(self.bytes.as_slice());
            Ustr { bytes: v, null: false }
        }
    }
}

/// Cheap conversion to an owned [`Ustr`].
pub trait AsUstr {
    /// Performs the conversion.
    fn as_ustr(&self) -> (r: Ustr)
        ensures
            r.wf(),
    ;
}

impl AsUstr for Ustr {
    fn as_ustr(&self) -> (r: Ustr)
        ensures
            r@ == if self.wf() {
                self@
            } else {
                seq![0u8]
            },
    {
        if self.bytes.len() == 0 {
            return Ustr::empty();
        }
        if self.bytes[self.bytes.len() - 1] != 0 {
            return Ustr::empty();
        }
        let mut v: Vec<u8> = Vec::new();
        v.extend_from_slice(self.bytes.as_slice());
        Ustr { bytes: v, null: self.null }
    }
}

impl AsUstr for Ustring {
    fn as_ustr(&self) -> (r: Ustr)
        ensures
            self.wf() ==> r@ == self.init_spec(),
    {
        if self.bytes.len() == 0 {
            return Ustr::empty();
        }
        if self.bytes[self.bytes.len() - 1] != 0 {
            return Ustr::empty();
        }
        let mut v: Vec<u8> = Vec::new();
        v.extend_from_slice(self.bytes.as_slice());
        Ustr { bytes: v, null: false }
    }
}

/// An owned, ordered list of nul-terminated strings, as handed to C
/// APIs that expect a null-terminated array of C string pointers.
pub struct UstrPtr {
    ustrs: Vec<Ustr>,
}

impl View for UstrPtr {
    type V = Seq<Seq<u8>>;

    closed spec fn view(&self) -> Seq<Seq<u8>> {
        self.ustrs@.map(|i: int, u: Ustr| u@)
    }
}

impl UstrPtr {
    /// Every held string carries its nul terminator.
    pub open spec fn wf(&self) -> bool {
        forall|i: int|
            0 <= i < self@.len() ==> (#[trigger] self@[i]).len() >= 1 && self@[i].last() == 0
    }

    /// Creates a new, empty `UstrPtr`.
    pub fn new() -> (r: UstrPtr)
        ensures
            r@ == Seq::<Seq<u8>>::empty(),
            r.wf(),
    {
        let r = UstrPtr { ustrs: Vec::new() };
        proof {
            assert(r@ =~= Seq::<Seq<u8>>::empty());
        }
        r
    }

    /// Appends a string to the list.
    pub fn push(&mut self, s: Ustr)
        requires
            old(self).wf(),
            s.wf(),
        ensures
            final(self).wf(),
            final(self)@ == old(self)@.push(s@),
    {
        self.ustrs.push(s);
        proof {
            assert(self@ =~= old(self)@.push(s@));
        }
    }

    /// The number of strings held.
    pub fn len(&self) -> (r: usize)
        ensures
            r == self@.len(),
    {
        self.ustrs.len()
    }

    /// Returns the string at `i`.
    pub fn get(&self, i: usize) -> (r: &Ustr)
        requires
            i < self@.len(),
        ensures
            r@ == self@[i as int],
    {
        &self.ustrs[i]
    }
}

/// Relies on `String::from_utf8`: it succeeds exactly on valid UTF-8,
/// returning the string of those bytes, and on failure the error's
/// `into_bytes` hands the input back unchanged.
#[verifier::external_body]
fn string_from_utf8(v: Vec<u8>) -> (r: Result<String, Vec<u8>>)
    ensures
        match r {
            Ok(s) => valid_utf8(v@) && s@ == decode_utf8(v@),
            Err(w) => !valid_utf8(v@) && w@ == v@,
        },
{
    String::from_utf8(v).map_err(|e| e.into_bytes())
}

/// Relies on `Vec::reserve_exact`: reserving capacity does not change
/// the vector's contents.
#[verifier::external_body]
fn vec_reserve_exact(v: &mut Vec<u8>, additional: usize)
    ensures
        final(v)@ == old(v)@,
{
    v.reserve_exact(additional);
}

/// Relies on `Vec::capacity`: a vector's capacity is at least its
/// length.
#[verifier::external_body]
fn vec_capacity(v: &Vec<u8>) -> (r: usize)
    ensures
        r >= v@.len(),
{
    v.capacity()
}

} // verus!
