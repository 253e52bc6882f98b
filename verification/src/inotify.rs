//! Parsing of inotify event records.
//!
//! An inotify read yields back-to-back records: a fixed 16-byte header
//! followed by `len` name bytes, packed with no extra padding.  The
//! name field, when present, must hold a terminating nul byte at its
//! declared end; the yielded name is the field trimmed at its first
//! nul.  A buffer that breaks these rules signals impossible kernel
//! behaviour, not recoverable bad input: the parser demands a
//! well-formed buffer up front instead of reporting an error.

use crate::c::inotify_event;
use crate::pod::i32_from_u32;
use crate::pod::u32_to_i32;
use crate::pod::Pod;
use vstd::bytes::spec_u32_from_le_bytes;
use vstd::bytes::u32_from_le_bytes;
use vstd::prelude::*;
use vstd::slice::slice_subrange;

verus! {

/// Byte size of the fixed part of an event record.
pub const INOTIFY_EVENT_SIZE: usize = 16;

impl Pod for inotify_event {
    open spec fn size_spec() -> int {
        16
    }

    open spec fn from_byte_seq(b: Seq<u8>) -> inotify_event {
        inotify_event {
            wd: i32_from_u32(spec_u32_from_le_bytes(b.subrange(0, 4))),
            mask: spec_u32_from_le_bytes(b.subrange(4, 8)),
            cookie: spec_u32_from_le_bytes(b.subrange(8, 12)),
            len: spec_u32_from_le_bytes(b.subrange(12, 16)),
        }
    }

    fn size() -> (n: usize) {
        16
    }

    fn from_bytes(b: &[u8]) -> (r: inotify_event) {
        inotify_event {
            wd: u32_to_i32(u32_from_le_bytes(slice_subrange(b, 0, 4))),
            mask: u32_from_le_bytes(slice_subrange(b, 4, 8)),
            cookie: u32_from_le_bytes(slice_subrange(b, 8, 12)),
            len: u32_from_le_bytes(slice_subrange(b, 12, 16)),
        }
    }
}

/// Index of the first nul byte of `s`, or `s.len()` if there is none.
pub open spec fn first_nul(s: Seq<u8>) -> int
    decreases s.len(),
{
    if s.len() == 0 {
        0
    } else if s[0] == 0 {
        0
    } else {
        1 + first_nul(s.skip(1))
    }
}

/// `first_nul` is the index characterised by: everything before it is
/// non-nul, and it is the end of the sequence or a nul.
pub proof fn lemma_first_nul_is(s: Seq<u8>, i: int)
    requires
        0 <= i <= s.len(),
        forall|j: int| 0 <= j < i ==> s[j] != 0,
        i < s.len() ==> s[i] == 0,
    ensures
        first_nul(s) == i,
    decreases s.len(),
{
    if s.len() == 0 {
    } else if s[0] == 0 {
    } else {
        assert(s.skip(1).len() == s.len() - 1);
        assert(forall|j: int| 0 <= j < i - 1 ==> s.skip(1)[j] == s[j + 1] && s[j + 1] != 0);
        assert(i - 1 < s.skip(1).len() ==> s.skip(1)[i - 1] == s[i] && s[i] == 0);
        lemma_first_nul_is(s.skip(1), i - 1);
    }
}

/// The whole buffer splits into well-formed event records: each record
/// holds a full fixed header, its declared name length neither
/// overflows nor passes the end of the buffer, and a non-empty name
/// field carries a nul byte at its declared end.
pub open spec fn inotify_wf(b: Seq<u8>) -> bool
    decreases b.len(),
{
    if b.len() == 0 {
        true
    } else if b.len() < 16 {
        false
    } else {
        let e = inotify_event::from_byte_seq(b.take(16));
        if !(16 + e.len as int <= usize::MAX as int && 16 + e.len as int <= b.len()) {
            false
        } else {
            &&& (e.len > 0 ==> b[16 + e.len as int - 1] == 0)
            &&& inotify_wf(b.skip(16 + e.len as int))
        }
    }
}

/// The records of a well-formed buffer, in order: each event header
/// with its name trimmed at the first nul.
pub open spec fn inotify_events_spec(b: Seq<u8>) -> Seq<(inotify_event, Seq<u8>)>
    decreases b.len(),
{
    if b.len() < 16 {
        Seq::empty()
    } else {
        let e = inotify_event::from_byte_seq(b.take(16));
        if !(16 + e.len as int <= usize::MAX as int && 16 + e.len as int <= b.len()) {
            Seq::empty()
        } else {
            let name = b.subrange(16, 16 + e.len as int);
            seq![(e, name.take(first_nul(name)))] + inotify_events_spec(
                b.skip(16 + e.len as int),
            )
        }
    }
}

/// One parsed inotify event: the fixed header and a view of the name.
pub struct InotifyEvent<'a> {
    pub event: inotify_event,
    pub name: &'a [u8],
}

impl<'a> InotifyEvent<'a> {
    /// Returns the `name` field of the event.
    pub fn name(&self) -> (r: &'a [u8])
        ensures
            r@ == self.name@,
    {
        self.name
    }
}

/// Parses the next event record off the front of a well-formed buffer
/// and advances the buffer past it; returns `None` at the end of the
/// sequence.
pub fn inotify_next<'a>(buf: &mut &'a [u8]) -> (r: Option<InotifyEvent<'a>>)
    requires
        inotify_wf(old(buf)@),
    ensures
        ({
            let b = old(buf)@;
            if b.len() == 0 {
                r matches None && final(buf)@ == b
            } else {
                let e = inotify_event::from_byte_seq(b.take(16));
                let name = b.subrange(16, 16 + e.len as int);
                match r {
                    Some(ev) => {
                        &&& ev.event == e
                        &&& ev.name@ == name.take(first_nul(name))
                        &&& final(buf)@ == b.skip(16 + e.len as int)
                        &&& inotify_wf(final(buf)@)
                    },
                    None => false,
                }
            }
        }),
{
    let cur: &'a [u8] = *buf;
    if cur.len() == 0 {
        return None;
    }
    let eb = slice_subrange(cur, 0, INOTIFY_EVENT_SIZE);
    proof {
        assert(eb@ =~= cur@.take(16));
    }
    let event = inotify_event::from_bytes(eb);
    let name_len = event.len as usize;
    let total = INOTIFY_EVENT_SIZE + name_len;
    let raw = slice_subrange(cur, INOTIFY_EVENT_SIZE, total);
    let mut i: usize = 0;
    while i < raw.len() && raw[i] != 0
        invariant
            0 <= i <= raw@.len(),
            raw@.len() <= usize::MAX,
            forall|j: int| 0 <= j < i ==> raw@[j] != 0,
        decreases raw@.len() - i,
    {
        i = i + 1;
    }
    proof {
        lemma_first_nul_is(raw@, i as int);
    }
    let name = slice_subrange(raw, 0, i);
    *buf = slice_subrange(cur, total, cur.len());
    proof {
        assert(final(buf)@ =~= cur@.skip(16 + event.len as int));
        assert(name@ =~= raw@.take(first_nul(raw@)));
    }
    Some(InotifyEvent { event, name })
}

/// Parses every event record of a well-formed buffer, in order.
pub fn inotify_events<'a>(buf: &'a [u8]) -> (r: Vec<InotifyEvent<'a>>)
    requires
        inotify_wf(buf@),
    ensures
        r@.len() == inotify_events_spec(buf@).len(),
        forall|i: int|
            0 <= i < r@.len() ==> (#[trigger] r@[i]).event == inotify_events_spec(buf@)[i].0
                && r@[i].name@ == inotify_events_spec(buf@)[i].1,
{
    let mut out: Vec<InotifyEvent<'a>> = Vec::new();
    let mut cur: &'a [u8] = buf;
    while cur.len() > 0
        invariant
            inotify_wf(cur@),
            inotify_events_spec(buf@).len() == out@.len() + inotify_events_spec(cur@).len(),
            forall|i: int|
                0 <= i < out@.len() ==> (#[trigger] out@[i]).event == inotify_events_spec(
                    buf@,
                )[i].0 && out@[i].name@ == inotify_events_spec(buf@)[i].1,
            forall|i: int|
                0 <= i < inotify_events_spec(cur@).len() ==> #[trigger] inotify_events_spec(
                    cur@,
                )[i] == inotify_events_spec(buf@)[out@.len() + i],
        decreases cur@.len(),
    {
        let ghost b0 = cur@;
        match inotify_next(&mut cur) {
            Some(ev) => {
                proof {
                    let e = inotify_event::from_byte_seq(b0.take(16));
                    let name = b0.subrange(16, 16 + e.len as int);
                    assert(inotify_events_spec(b0) == seq![(e, name.take(first_nul(name)))]
                        + inotify_events_spec(b0.skip(16 + e.len as int)));
                    assert(inotify_events_spec(b0)[0] == (e, name.take(first_nul(name))));
                }
                out.push(ev);
                proof {
                    assert forall|i: int|
                        0 <= i < inotify_events_spec(cur@).len() implies #[trigger] inotify_events_spec(
                        cur@,
                    )[i] == inotify_events_spec(buf@)[out@.len() + i] by {
                        assert(inotify_events_spec(b0)[i + 1] == inotify_events_spec(cur@)[i]);
                    }
                }
            },
            None => {
                proof {
                    assert(false);
                }
            },
        }
    }
    proof {
        assert(inotify_events_spec(cur@).len() == 0);
    }
    out
}

} // verus!
