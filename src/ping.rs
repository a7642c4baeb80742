//! The discovery ping packet (id 0x01).

use vstd::prelude::*;
use crate::wire::{
    bytes_as_slice, bytes_content, bytes_from_vec, padded, push_all, read_padded, DecodeError,
};

verus! {

/// Packet id of an unconnected ping.
pub const UNCONNECTED_PING_ID: u8 = 0x01;

/// The fixed magic that both discovery packets carry.
pub const MAGIC: [u8; 16] = [
    0x00, 0xff, 0xff, 0x00, 0xfe, 0xfe, 0xfe, 0xfe, 0xfd, 0xfd, 0xfd, 0xfd, 0x12, 0x34, 0x56, 0x78,
];

/// The bytes of `MAGIC`.
pub open spec fn magic_bytes() -> Seq<u8> {
    seq![0x00u8, 0xff, 0xff, 0x00, 0xfe, 0xfe, 0xfe, 0xfe, 0xfd, 0xfd, 0xfd, 0xfd, 0x12, 0x34, 0x56, 0x78]
}

/// A copy of `MAGIC`.
pub fn magic() -> (r: [u8; 16])
    ensures
        r@ == magic_bytes(),
{
    let r = MAGIC;
    assert(r@ =~= magic_bytes());
    r
}

/// An unconnected ping: the discovery request a client broadcasts.
#[derive(Debug, Clone)]
pub struct UnconnectedPing {
    pub ping_time: [u8; 8],
    pub magic: [u8; 16],
    pub client_id: [u8; 8],
}

/// The wire form of a ping: id, ping time, magic, client id.
pub open spec fn encode_ping(p: UnconnectedPing) -> Seq<u8> {
    seq![UNCONNECTED_PING_ID] + p.ping_time@ + p.magic@ + p.client_id@
}

/// A datagram decodes as a ping when it has at least 25 bytes and the ping id.
pub open spec fn ping_decodes(d: Seq<u8>) -> bool {
    d.len() >= 25 && d[0] == UNCONNECTED_PING_ID
}

/// The ping read from `d`: the client id is zero where `d` stops short of it.
pub open spec fn ping_fields_of(d: Seq<u8>, p: UnconnectedPing) -> bool {
    &&& p.ping_time@ == d.subrange(1, 9)
    &&& p.magic@ == d.subrange(9, 25)
    &&& p.client_id@ == padded(d, 25, 8)
}

/// What decoding `d` as a ping gives.
pub open spec fn ping_decode_result(d: Seq<u8>, r: Result<UnconnectedPing, DecodeError>) -> bool {
    if d.len() < 25 {
        r == Err::<UnconnectedPing, DecodeError>(DecodeError::TooShort)
    } else if d[0] != UNCONNECTED_PING_ID {
        r == Err::<UnconnectedPing, DecodeError>(DecodeError::InvalidPacketId)
    } else {
        r matches Ok(p) && ping_fields_of(d, p)
    }
}

impl UnconnectedPing {
    /// A ping with the given client id and ping time and the fixed magic.
    pub fn new(client_id: [u8; 8], ping_time: [u8; 8]) -> (r: Self)
        ensures
            r.client_id == client_id,
            r.ping_time == ping_time,
            r.magic@ == magic_bytes(),
    {
        UnconnectedPing { ping_time, magic: magic(), client_id }
    }

    /// The 33 bytes of this ping on the wire.
    pub fn build(&self) -> (r: bytes::Bytes)
        ensures
            bytes_content(r) == encode_ping(*self),
            bytes_content(r).len() == 33,
    {
        let mut v: Vec<u8> = Vec::new();
        v.push(UNCONNECTED_PING_ID);
        push_all(&mut v, self.ping_time.as_slice());
        push_all(&mut v, self.magic.as_slice());
        push_all(&mut v, self.client_id.as_slice());
        bytes_from_vec(v)
    }

    /// Reads a ping from the bytes of a datagram.
    pub fn decode(d: &[u8]) -> (r: Result<Self, DecodeError>)
        ensures
            ping_decode_result(d@, r),
            r is Ok <==> ping_decodes(d@),
    {
        if d.len() < 25 {
            return Err(DecodeError::TooShort);
        }
        if d[0] != UNCONNECTED_PING_ID {
            return Err(DecodeError::InvalidPacketId);
        }
        let ping_time: [u8; 8] = read_padded(d, 1);
        let magic: [u8; 16] = read_padded(d, 9);
        let client_id: [u8; 8] = read_padded(d, 25);
        assert(ping_time@ =~= d@.subrange(1, 9));
        assert(magic@ =~= d@.subrange(9, 25));
        Ok(UnconnectedPing { ping_time, magic, client_id })
    }

    /// Reads a ping from a received buffer.
    pub fn from_bytes(data: bytes::Bytes) -> (r: Result<Self, DecodeError>)
        ensures
            ping_decode_result(bytes_content(data), r),
            r is Ok <==> ping_decodes(bytes_content(data)),
    {
        Self::decode(bytes_as_slice(&data))
    }
}

impl Default for UnconnectedPing {
    fn default() -> (r: Self)
        ensures
            r.client_id@ == seq![0u8, 0, 0, 0, 0, 0, 0, 0],
            r.ping_time@ == seq![0u8, 0, 0, 0, 0, 0, 0, 0],
            r.magic@ == magic_bytes(),
    {
        let r = Self::new([0u8; 8], [0u8; 8]);
        assert(r.client_id@ =~= seq![0u8, 0, 0, 0, 0, 0, 0, 0]);
        assert(r.ping_time@ =~= seq![0u8, 0, 0, 0, 0, 0, 0, 0]);
        r
    }
}

/// Decoding a ping and encoding it again gives back the datagram's first 25
/// bytes, and the whole datagram when it is 33 bytes long.
pub proof fn lemma_ping_decode_encode(d: Seq<u8>, p: UnconnectedPing)
    requires
        ping_decodes(d),
        d.subrange(9, 25) == magic_bytes(),
        ping_decode_result(d, Ok(p)),
    ensures
        encode_ping(p).subrange(0, 25) == d.subrange(0, 25),
        d.len() == 33 ==> encode_ping(p) == d,
{
    assert(encode_ping(p).subrange(0, 25) =~= d.subrange(0, 25));
    if d.len() == 33 {
        assert(encode_ping(p) =~= d);
    }
}

/// Encoding a ping and decoding the result gives back the same ping.
pub proof fn lemma_ping_encode_decode(p: UnconnectedPing, r: Result<UnconnectedPing, DecodeError>)
    requires
        ping_decode_result(encode_ping(p), r),
    ensures
        r == Ok::<UnconnectedPing, DecodeError>(p),
{
    let d = encode_ping(p);
    let q = r->Ok_0;
    assert(q.ping_time@ =~= p.ping_time@);
    assert(q.magic@ =~= p.magic@);
    assert(q.client_id@ =~= p.client_id@);
    assert(q.ping_time == p.ping_time);
    assert(q.magic == p.magic);
    assert(q.client_id == p.client_id);
}

} // verus!
