//! The part of a discovery ping that decides: the ping time stamp, and what
//! a server's reply yields.

use vstd::prelude::*;
use vstd::string::*;
use vstd::utf8::*;
use crate::api::ClientError;
use crate::pong::{
    parse_fields, pong_decodes, pong_error, pong_payload, UnconnectedPong, UNCONNECTED_PONG_ID,
};
use crate::wire::{bytes_as_slice, bytes_content};

verus! {

/// What a server advertises in answer to a ping.
#[derive(Debug, Clone)]
pub struct Pong {
    pub edition: String,
    pub motd: String,
    pub protocol_version: String,
    pub version: String,
    pub players: String,
    pub max_players: String,
    pub server_id: String,
    pub sub_motd: String,
    pub game_mode: String,
    pub game_mode_numeric: String,
    pub port4: String,
    pub port6: String,
}

/// The twelve fields of `p`, in wire order.
pub open spec fn pong_record_fields(p: Pong) -> Seq<Seq<char>> {
    seq![
        p.edition@, p.motd@, p.protocol_version@, p.version@, p.players@, p.max_players@,
        p.server_id@, p.sub_motd@, p.game_mode@, p.game_mode_numeric@, p.port4@, p.port6@,
    ]
}

/// `m` as eight big-endian bytes.
pub open spec fn be64(m: u64) -> Seq<u8> {
    seq![
        ((m / 0x100000000000000) % 256) as u8,
        ((m / 0x1000000000000) % 256) as u8,
        ((m / 0x10000000000) % 256) as u8,
        ((m / 0x100000000) % 256) as u8,
        ((m / 0x1000000) % 256) as u8,
        ((m / 0x10000) % 256) as u8,
        ((m / 0x100) % 256) as u8,
        (m % 256) as u8,
    ]
}

/// The ping time field for a client that has run `elapsed_ms` milliseconds:
/// the count cut to 64 bits, big-endian.
pub fn elapsed_millis_bytes(elapsed_ms: u128) -> (r: [u8; 8])
    ensures
        r@ == be64((elapsed_ms % 0x10000000000000000) as u64),
{
    let m: u64 = (elapsed_ms % 0x10000000000000000) as u64;
    let r: [u8; 8] = [
        ((m / 0x100000000000000) % 256) as u8,
        ((m / 0x1000000000000) % 256) as u8,
        ((m / 0x10000000000) % 256) as u8,
        ((m / 0x100000000) % 256) as u8,
        ((m / 0x1000000) % 256) as u8,
        ((m / 0x10000) % 256) as u8,
        ((m / 0x100) % 256) as u8,
        (m % 256) as u8,
    ];
    assert(r@ =~= be64(m));
    r
}

/// What a server's reply to a ping yields: its advertised fields if it is a
/// pong, an invalid-response error otherwise.
pub fn pong_from_reply(response: bytes::Bytes) -> (r: Result<Pong, ClientError>)
    ensures
        ({
            let d = bytes_content(response);
            &&& (d.len() == 0 || d[0] != UNCONNECTED_PONG_ID) ==> (r matches Err(
                ClientError::InvalidResponse(m),
            ) && m@ == "Invalid response packet ID"@)
            &&& (d.len() > 0 && d[0] == UNCONNECTED_PONG_ID && !pong_decodes(d)) ==> (r matches Err(
                ClientError::InvalidResponse(m),
            ) && m@ == pong_error(d).spec_message())
            &&& pong_decodes(d) ==> (r matches Ok(p) && pong_record_fields(p) == parse_fields(
                decode_utf8(pong_payload(d)),
            ))
        }),
{
    let d = bytes_as_slice(&response);
    if d.len() == 0 || d[0] != UNCONNECTED_PONG_ID {
        return Err(ClientError::InvalidResponse(String::from_str("Invalid response packet ID")));
    }
    match UnconnectedPong::decode(d) {
        Err(e) => Err(ClientError::InvalidResponse(String::from_str(e.message()))),
        Ok(pong) => {
            let p = pong.pong;
            Ok(
                Pong {
                    edition: p.edition,
                    motd: p.motd,
                    protocol_version: p.protocol_version,
                    version: p.version,
                    players: p.players,
                    max_players: p.max_players,
                    server_id: p.server_id,
                    sub_motd: p.sub_motd,
                    game_mode: p.game_mode,
                    game_mode_numeric: p.game_mode_numeric,
                    port4: p.port4,
                    port6: p.port6,
                },
            )
        },
    }
}

} // verus!
