//! The client routing table and the two relay directions.
//!
//! Each client address gets one upstream slot the first time a packet from it
//! is seen; the slot never changes. Packets from the client go upstream as
//! they are; replies come back unchanged, but for discovery pongs, whose
//! advertised IPv4 port is replaced by the proxy's own.

use vstd::prelude::*;
use vstd::utf8::*;
use std::collections::HashMap;
use crate::pong::{
    be16, encode_pong, fields_of, join_fields, parse_fields, pong_decode_result, pong_decodes,
    pong_payload, UnconnectedPong, UNCONNECTED_PONG_ID,
};
use crate::wire::{bytes_as_slice, bytes_content};

verus! {

broadcast use vstd::std_specs::hash::group_hash_axioms;

/// An IPv4 client address.
#[derive(Debug, Clone, Copy, PartialEq, Eq, Hash, Structural)]
pub struct PeerAddr {
    pub ip: u32,
    pub port: u16,
}

impl PeerAddr {
    /// The address as one integer: the IPv4 address above the port.
    pub open spec fn spec_key(self) -> u64 {
        (self.ip as int * 65536 + self.port as int) as u64
    }

    pub fn key(&self) -> (r: u64)
        ensures
            r == self.spec_key(),
    {
        (self.ip as u64) * 65536 + (self.port as u64)
    }
}

/// Two addresses with the same key are the same address.
pub proof fn lemma_key_injective(a: PeerAddr, b: PeerAddr)
    requires
        a.spec_key() == b.spec_key(),
    ensures
        a == b,
{
    let ka = a.ip as int * 65536 + a.port as int;
    let kb = b.ip as int * 65536 + b.port as int;
    assert(ka == a.spec_key() && kb == b.spec_key());
    assert(a.ip == b.ip && a.port == b.port) by (nonlinear_arith)
        requires
            ka == kb,
            ka == a.ip as int * 65536 + a.port as int,
            kb == b.ip as int * 65536 + b.port as int,
            0 <= a.port < 65536,
            0 <= b.port < 65536,
            0 <= a.ip,
            0 <= b.ip,
    ;
}

/// What the router does with one packet from a client: open the client's
/// upstream slot first if `connect`, then send `payload` upstream through it.
pub struct Forward {
    pub slot: usize,
    pub connect: bool,
    pub payload: bytes::Bytes,
}

/// The router's state: which upstream slot belongs to which client.
pub struct RoutingTable {
    proxy_port: u16,
    slots: HashMap<u64, usize>,
    count: usize,
}

impl RoutingTable {
    /// Client key to slot.
    pub closed spec fn slot_map(self) -> Map<u64, usize> {
        self.slots@
    }

    /// The number of slots handed out; they are `0..count`.
    pub closed spec fn count(self) -> nat {
        self.count as nat
    }

    pub closed spec fn spec_proxy_port(self) -> u16 {
        self.proxy_port
    }

    /// Every slot is below the count and belongs to one client only, and
    /// every slot below the count is in use.
    pub closed spec fn wf(self) -> bool {
        &&& forall|k: u64| #[trigger] self.slots@.contains_key(k) ==> self.slots@[k] < self.count
        &&& forall|k1: u64, k2: u64|
            #[trigger] self.slots@.contains_key(k1) && #[trigger] self.slots@.contains_key(k2)
                && k1 != k2 ==> self.slots@[k1] != self.slots@[k2]
        &&& self.slots@.dom().len() == self.count
        &&& self.slots@.dom().finite()
    }

    /// An empty table for a proxy that listens on `proxy_port`.
    pub fn new(proxy_port: u16) -> (r: Self)
        ensures
            r.wf(),
            r.slot_map() == Map::<u64, usize>::empty(),
            r.count() == 0,
            r.spec_proxy_port() == proxy_port,
    {
        let r = RoutingTable { proxy_port, slots: HashMap::new(), count: 0 };
        assert(r.slots@ =~= Map::<u64, usize>::empty());
        r
    }

    pub fn proxy_port(&self) -> (r: u16)
        ensures
            r == self.spec_proxy_port(),
    {
        self.proxy_port
    }

    /// The number of clients seen so far.
    pub fn len(&self) -> (r: usize)
        ensures
            r == self.count(),
    {
        self.count
    }

    /// The slot of `client`, if a packet from it was seen.
    pub fn slot_of(&self, client: &PeerAddr) -> (r: Option<usize>)
        ensures
            r == (if self.slot_map().contains_key(client.spec_key()) {
                Some(self.slot_map()[client.spec_key()])
            } else {
                None::<usize>
            }),
    {
        match self.slots.get(&client.key()) {
            Some(s) => Some(*s),
            None => None,
        }
    }

    /// Handles one packet from `client`: a client seen for the first time
    /// gets the next free slot, and the payload is forwarded unchanged.
    pub fn handle_packet(&mut self, client: PeerAddr, data: bytes::Bytes) -> (r: Forward)
        requires
            old(self).wf(),
            old(self).count() < usize::MAX,
        ensures
            final(self).wf(),
            final(self).spec_proxy_port() == old(self).spec_proxy_port(),
            r.payload == data,
            r.connect == !old(self).slot_map().contains_key(client.spec_key()),
            r.connect ==> {
                &&& r.slot == old(self).count()
                &&& final(self).slot_map() == old(self).slot_map().insert(client.spec_key(), r.slot)
                &&& final(self).count() == old(self).count() + 1
            },
            !r.connect ==> {
                &&& r.slot == old(self).slot_map()[client.spec_key()]
                &&& final(self).slot_map() == old(self).slot_map()
                &&& final(self).count() == old(self).count()
            },
            final(self).slot_map()[client.spec_key()] == r.slot,
    {
        let key = client.key();
        match self.slots.get(&key) {
            Some(s) => Forward { slot: *s, connect: false, payload: data },
            None => {
                let slot = self.count;
                let ghost before = self.slots@;
                self.slots.insert(key, slot);
                self.count = self.count + 1;
                proof {
                    assert(!before.contains_key(key));
                    assert(self.slots@.dom() =~= before.dom().insert(key));
                    assert forall|k: u64| #[trigger] self.slots@.contains_key(k) implies self.slots@[k] < self.count by {
                        if k != key {
                            assert(before.contains_key(k));
                        }
                    }
                    assert forall|k1: u64, k2: u64|
                        #[trigger] self.slots@.contains_key(k1) && #[trigger] self.slots@.contains_key(k2)
                            && k1 != k2 implies self.slots@[k1] != self.slots@[k2] by {
                        if k1 != key && k2 != key {
                            assert(before.contains_key(k1) && before.contains_key(k2));
                        } else if k1 == key {
                            assert(before.contains_key(k2));
                        } else {
                            assert(before.contains_key(k1));
                        }
                    }
                }
                Forward { slot, connect: true, payload: data }
            },
        }
    }
}

/// Two different clients in a well-formed table hold different slots.
pub proof fn lemma_distinct_clients_distinct_slots(t: RoutingTable, a: PeerAddr, b: PeerAddr)
    requires
        t.wf(),
        a != b,
        t.slot_map().contains_key(a.spec_key()),
        t.slot_map().contains_key(b.spec_key()),
    ensures
        t.slot_map()[a.spec_key()] != t.slot_map()[b.spec_key()],
{
    if a.spec_key() == b.spec_key() {
        lemma_key_injective(a, b);
    }
}

/// The character of a decimal digit.
pub open spec fn digit_char(d: nat) -> char {
    seq!['0', '1', '2', '3', '4', '5', '6', '7', '8', '9'][d as int]
}

/// `n` in decimal, without sign or leading zeros.
pub open spec fn decimal(n: nat) -> Seq<char>
    decreases n,
{
    if n < 10 {
        seq![digit_char(n)]
    } else {
        decimal(n / 10).push(digit_char(n % 10))
    }
}

/// Relies on `u16`'s `ToString`, which goes through `Display`: the decimal
/// digits of the number, with no sign and no padding.
#[verifier::external_body]
fn port_text(port: u16) -> (r: String)
    ensures
        r@ == decimal(port as nat),
{
    port.to_string()
}

/// The pong `d` with its advertised IPv4 port replaced by `port`.
pub open spec fn rewritten_pong(d: Seq<u8>, port: u16) -> Seq<u8> {
    let text = encode_utf8(
        join_fields(parse_fields(decode_utf8(pong_payload(d))).update(10, decimal(port as nat))),
    );
    seq![UNCONNECTED_PONG_ID] + d.subrange(1, 33) + be16(text.len() % 65536) + text
}

/// What reaches the client for a datagram `d` from the server.
pub open spec fn relayed(d: Seq<u8>, port: u16) -> Seq<u8> {
    if pong_decodes(d) {
        rewritten_pong(d, port)
    } else {
        d
    }
}

/// Turns a datagram from the server into the one sent to the client: a
/// discovery pong advertises `proxy_port` as its IPv4 port, so that clients
/// reconnect through the proxy; anything else passes unchanged.
pub fn relay_to_client(data: bytes::Bytes, proxy_port: u16) -> (r: bytes::Bytes)
    ensures
        bytes_content(r) == relayed(bytes_content(data), proxy_port),
{
    let decoded = UnconnectedPong::decode(bytes_as_slice(&data));
    match decoded {
        Ok(pong) => {
            let ghost d = bytes_content(data);
            let mut rewritten = pong;
            rewritten.pong.port4 = port_text(proxy_port);
            let r = rewritten.build();
            proof {
                assert(fields_of(rewritten.pong) =~= parse_fields(
                    decode_utf8(pong_payload(d)),
                ).update(10, decimal(proxy_port as nat)));
                assert(encode_pong(rewritten) =~= rewritten_pong(d, proxy_port));
            }
            r
        },
        Err(_) => data,
    }
}

/// A datagram from the server that is not a discovery pong reaches the
/// client byte for byte.
pub proof fn lemma_non_pong_passes_through(d: Seq<u8>, port: u16)
    requires
        !pong_decodes(d),
    ensures
        relayed(d, port) == d,
{
}

} // verus!
