//! The wire-frame codec of the duplex session.
//!
//! Two frame shapes travel from the host to each session: a one-byte
//! heartbeat (`0x00`) used only for liveness, and a property update
//! `name 0x00 value` whose first NUL byte is the delimiter. Names and
//! values must not themselves contain NUL.

use vstd::prelude::*;
use vstd::slice::{slice_subrange, slice_to_vec};
use vstd::string::*;
use vstd::utf8::*;

use crate::error::ProtocolError;
use crate::text::{bytes_to_string, lemma_encode_utf8_len, lemma_encode_utf8_nul, no_nul};

verus! {

/// A property/value pair in flight from the host's store to a session.
#[derive(Clone, Debug)]
pub struct UpdatePropertyMessage {
    pub property: String,
    pub value: String,
}

impl UpdatePropertyMessage {
    pub fn new(property: String, value: String) -> (m: Self)
        ensures
            m.property@ == property@,
            m.value@ == value@,
    {
        UpdatePropertyMessage { property, value }
    }

    /// Encode for the wire: UTF-8 name, NUL separator, UTF-8 value.
    pub fn encode(&self) -> (r: Vec<u8>)
        ensures
            r@ == frame_bytes(self.property@, self.value@),
    {
        let mut r = self.property.as_str().as_bytes_vec();
        r.push(0u8);
        let mut v = self.value.as_str().as_bytes_vec();
        r.append(&mut v);
        proof {
            assert(r@ =~= frame_bytes(self.property@, self.value@));
        }
        r
    }
}

/// The wire bytes of a property update: name, NUL, value.
pub open spec fn frame_bytes(p: Seq<char>, v: Seq<char>) -> Seq<u8> {
    encode_utf8(p) + seq![0u8] + encode_utf8(v)
}

/// The one-byte liveness frame.
pub open spec fn heartbeat_bytes() -> Seq<u8> {
    seq![0u8]
}

/// The frame sent by the periodic liveness probe.
pub fn heartbeat_frame() -> (r: Vec<u8>)
    ensures
        r@ =~= heartbeat_bytes(),
{
    let mut r: Vec<u8> = Vec::new();
    r.push(0u8);
    r
}

/// A decoded inbound frame.
#[derive(Debug)]
pub enum Frame {
    /// The liveness sentinel; carries nothing.
    Heartbeat,
    /// A property update to apply to the local player.
    Update(UpdatePropertyMessage),
}

/// Index of the first occurrence of `x`, or the length when absent.
pub open spec fn byte_index(s: Seq<u8>, x: u8) -> int
    decreases s.len(),
{
    if s.len() == 0 {
        0
    } else if s[0] == x {
        0
    } else {
        1 + byte_index(s.drop_first(), x)
    }
}

pub proof fn lemma_byte_index(s: Seq<u8>, x: u8)
    ensures
        0 <= byte_index(s, x) <= s.len(),
        forall|j: int| 0 <= j < byte_index(s, x) ==> s[j] != x,
        byte_index(s, x) < s.len() ==> s[byte_index(s, x)] == x,
    decreases s.len(),
{
    if s.len() != 0 && s[0] != x {
        lemma_byte_index(s.drop_first(), x);
        assert forall|j: int| 0 <= j < byte_index(s, x) implies s[j] != x by {
            if j > 0 {
                assert(s.drop_first()[j - 1] == s[j]);
            }
        }
        if byte_index(s, x) < s.len() {
            assert(s.drop_first()[byte_index(s, x) - 1] == s[byte_index(s, x)]);
        }
    }
}

/// The first occurrence is pinned by a witness with a clean prefix.
pub proof fn lemma_byte_index_is(s: Seq<u8>, x: u8, p: int)
    requires
        0 <= p < s.len(),
        s[p] == x,
        forall|j: int| 0 <= j < p ==> s[j] != x,
    ensures
        byte_index(s, x) == p,
{
    lemma_byte_index(s, x);
}

/// What decoding owes for every byte sequence: the single NUL byte is
/// the heartbeat; otherwise the frame splits at its first NUL, both
/// halves must be valid text, and each failure names its reason.
pub open spec fn frame_decodes_to(b: Seq<u8>, r: Result<Frame, ProtocolError>) -> bool {
    let i = byte_index(b, 0);
    if b.len() == 1 && b[0] == 0 {
        r matches Ok(f) && f is Heartbeat
    } else if i == b.len() {
        r == Err::<Frame, ProtocolError>(ProtocolError::MissingSeparator)
    } else {
        let pb = b.subrange(0, i);
        let vb = b.subrange(i + 1, b.len() as int);
        if !valid_utf8(pb) {
            r == Err::<Frame, ProtocolError>(ProtocolError::InvalidProperty)
        } else if !valid_utf8(vb) {
            r == Err::<Frame, ProtocolError>(ProtocolError::InvalidValue)
        } else {
            r matches Ok(f) && f matches Frame::Update(m) && m.property@ == decode_utf8(pb)
                && m.value@ == decode_utf8(vb)
        }
    }
}

/// Index of the first NUL byte, or the length when there is none.
fn find_nul(bytes: &Vec<u8>) -> (r: usize)
    ensures
        r as int == byte_index(bytes@, 0),
{
    let n = bytes.len();
    let mut i: usize = 0;
    while i < n
        invariant
            n == bytes@.len(),
            i <= n,
            forall|j: int| 0 <= j < i ==> bytes@[j] != 0u8,
        decreases n - i,
    {
        if bytes[i] == 0 {
            proof {
                lemma_byte_index_is(bytes@, 0u8, i as int);
            }
            return i;
        }
        i = i + 1;
    }
    proof {
        lemma_byte_index(bytes@, 0u8);
    }
    n
}

/// Decode one inbound frame. The single NUL byte is the heartbeat;
/// anything else must split at a first NUL into two halves of valid
/// text, else the frame is a protocol error.
pub fn decode_frame(bytes: &Vec<u8>) -> (r: Result<Frame, ProtocolError>)
    ensures
        frame_decodes_to(bytes@, r),
{
    let n = bytes.len();
    if n == 1 && bytes[0] == 0 {
        return Ok(Frame::Heartbeat);
    }
    let i = find_nul(bytes);
    if i == n {
        return Err(ProtocolError::MissingSeparator);
    }
    proof {
        lemma_byte_index(bytes@, 0u8);
    }
    let pb = slice_to_vec(slice_subrange(bytes.as_slice(), 0, i));
    let vb = slice_to_vec(slice_subrange(bytes.as_slice(), i + 1, n));
    match bytes_to_string(pb) {
        None => Err(ProtocolError::InvalidProperty),
        Some(property) => match bytes_to_string(vb) {
            None => Err(ProtocolError::InvalidValue),
            Some(value) => Ok(Frame::Update(UpdatePropertyMessage { property, value })),
        },
    }
}

/// Law: frame round trip. Encoding a property update whose name and
/// value are free of NUL, then decoding by first-NUL split, reproduces
/// the exact name and value. (The one frame this cannot cover is an
/// empty name with an empty value, whose encoding is the heartbeat
/// byte itself.)
pub proof fn lemma_frame_round_trip(p: Seq<char>, v: Seq<char>)
    requires
        no_nul(p),
        no_nul(v),
        p.len() + v.len() > 0,
    ensures
        ({
            let b = frame_bytes(p, v);
            let i = byte_index(b, 0);
            &&& !(b.len() == 1 && b[0] == 0)
            &&& i == encode_utf8(p).len()
            &&& i < b.len()
            &&& valid_utf8(b.subrange(0, i))
            &&& valid_utf8(b.subrange(i + 1, b.len() as int))
            &&& decode_utf8(b.subrange(0, i)) == p
            &&& decode_utf8(b.subrange(i + 1, b.len() as int)) == v
        }),
{
    let ep = encode_utf8(p);
    let ev = encode_utf8(v);
    let b = frame_bytes(p, v);
    lemma_encode_utf8_nul(p);
    lemma_encode_utf8_len(p);
    lemma_encode_utf8_len(v);
    assert(b.len() == ep.len() + 1 + ev.len());
    assert(b[ep.len() as int] == 0u8);
    assert forall|j: int| 0 <= j < ep.len() implies b[j] != 0u8 by {
        assert(b[j] == ep[j]);
        if ep[j] == 0u8 {
            assert(ep.contains(0u8));
        }
    }
    lemma_byte_index_is(b, 0u8, ep.len() as int);
    assert(b.subrange(0, ep.len() as int) =~= ep);
    assert(b.subrange(ep.len() as int + 1, b.len() as int) =~= ev);
    encode_utf8_valid_utf8(p);
    encode_utf8_valid_utf8(v);
    encode_utf8_decode_utf8(p);
    encode_utf8_decode_utf8(v);
}

} // verus!
