//! Byte buffers shared with the network layer, and the few std conversions
//! the codec relies on.

use vstd::prelude::*;
use vstd::utf8::*;

verus! {

#[verifier::external_type_specification]
#[verifier::external_body]
pub struct ExBytes(bytes::Bytes);

/// The bytes that a `bytes::Bytes` buffer holds, in order.
pub uninterp spec fn bytes_content(b: bytes::Bytes) -> Seq<u8>;

/// Relies on `impl From<Vec<u8>> for bytes::Bytes`: the buffer takes over the
/// vector's bytes as they are.
#[verifier::external_body]
pub(crate) fn bytes_from_vec(v: Vec<u8>) -> (r: bytes::Bytes)
    ensures
        bytes_content(r) == v@,
{
    bytes::Bytes::from(v)
}

/// Relies on `<bytes::Bytes as AsRef<[u8]>>::as_ref`: the buffer's bytes, in
/// place.
#[verifier::external_body]
pub(crate) fn bytes_as_slice(b: &bytes::Bytes) -> (r: &[u8])
    ensures
        r@ == bytes_content(*b),
{
    b.as_ref()
}

/// Why a datagram could not be read as a discovery packet.
#[derive(Debug, Clone, Copy, PartialEq, Eq, Structural)]
pub enum DecodeError {
    TooShort,
    InvalidPacketId,
    TruncatedPayload,
    InvalidUtf8,
}

impl DecodeError {
    /// The text of the error.
    pub open spec fn spec_message(self) -> Seq<char> {
        match self {
            DecodeError::TooShort => "Data too short for packet"@,
            DecodeError::InvalidPacketId => "Invalid packet ID"@,
            DecodeError::TruncatedPayload => "Not enough data for pong content"@,
            DecodeError::InvalidUtf8 => "Invalid UTF-8 in pong data"@,
        }
    }

    /// The text of the error.
    pub fn message(&self) -> (r: &'static str)
        ensures
            r@ == self.spec_message(),
    {
        match self {
            DecodeError::TooShort => "Data too short for packet",
            DecodeError::InvalidPacketId => "Invalid packet ID",
            DecodeError::TruncatedPayload => "Not enough data for pong content",
            DecodeError::InvalidUtf8 => "Invalid UTF-8 in pong data",
        }
    }
}

/// `n` bytes of `d` from `start` on, with a zero for each position past its end.
pub open spec fn padded(d: Seq<u8>, start: int, n: nat) -> Seq<u8> {
    Seq::new(n, |i: int| if start + i < d.len() { d[start + i] } else { 0u8 })
}

/// Reads `N` bytes of `d` from `start` on; positions past the end read as zero.
pub fn read_padded<const N: usize>(d: &[u8], start: usize) -> (r: [u8; N])
    ensures
        r@ == padded(d@, start as int, N as nat),
{
    let mut r: [u8; N] = [0u8; N];
    let mut i: usize = 0;
    while i < N
        invariant
            i <= N,
            r@.len() == N,
            forall|k: int| 0 <= k < i ==> r@[k] == padded(d@, start as int, N as nat)[k],
            forall|k: int| i <= k < N ==> r@[k] == 0u8,
        decreases N - i,
    {
        if start < d.len() && i < d.len() - start {
            r.set(i, d[start + i]);
        } else {
            r.set(i, 0u8);
        }
        i = i + 1;
    }
    assert(r@ =~= padded(d@, start as int, N as nat));
    r
}

/// Appends the bytes of `s` to `v`.
pub fn push_all(v: &mut Vec<u8>, s: &[u8])
    ensures
        final(v)@ == old(v)@ + s@,
{
    let mut i: usize = 0;
    while i < s.len()
        invariant
            i <= s@.len(),
            v@ == old(v)@ + s@.subrange(0, i as int),
        decreases s@.len() - i,
    {
        v.push(s[i]);
        assert(s@.subrange(0, i + 1) =~= s@.subrange(0, i as int).push(s@[i as int]));
        i = i + 1;
    }
    assert(s@.subrange(0, s@.len() as int) =~= s@);
}

/// Relies on `String::from_utf8`: it accepts exactly the valid UTF-8 byte
/// sequences, and then holds the characters they encode.
#[verifier::external_body]
pub(crate) fn utf8_to_string(v: Vec<u8>) -> (r: Option<String>)
    ensures
        r is Some <==> valid_utf8(v@),
        r matches Some(s) ==> s@ == decode_utf8(v@),
{
    String::from_utf8(v).ok()
}

} // verus!
