//! The discovery pong packet (id 0x1c) and its semicolon-separated payload.

use vstd::prelude::*;
use vstd::std_specs::iter::IteratorSpec;
use vstd::string::*;
use vstd::utf8::*;
use vstd::slice::{slice_subrange, slice_to_vec};
use crate::ping::{magic, magic_bytes, ping_decode_result, UnconnectedPing};
use crate::wire::{
    bytes_as_slice, bytes_content, bytes_from_vec, push_all, read_padded, utf8_to_string, DecodeError,
};

verus! {

/// The advertised server description carried by a pong, as twelve text fields.
#[derive(Debug, Clone)]
pub struct PongData {
    pub edition: String,
    pub motd: String,
    pub protocol_version: String,
    pub version: String,
    pub players: String,
    pub max_players: String,
    pub server_id: String,
    pub sub_motd: String,
    pub game_mode: String,
    pub game_mode_numeric: String,
    pub port4: String,
    pub port6: String,
}

/// The twelve fields of `p`, in wire order.
pub open spec fn fields_of(p: PongData) -> Seq<Seq<char>> {
    seq![
        p.edition@, p.motd@, p.protocol_version@, p.version@, p.players@, p.max_players@,
        p.server_id@, p.sub_motd@, p.game_mode@, p.game_mode_numeric@, p.port4@, p.port6@,
    ]
}

/// The value each field takes when a payload does not carry it.
pub open spec fn default_fields() -> Seq<Seq<char>> {
    seq![
        "MCPE"@, "phantom Server offline"@, "800"@, "1.31.83"@, "0"@, "1"@,
        "13253860892328930865"@, "Server Offline"@, "Creative"@, "1"@, "19132"@, "19132"@,
    ]
}

/// `s` cut at every `;`: one more part than `s` has semicolons.
pub open spec fn split_fields(s: Seq<char>) -> Seq<Seq<char>>
    decreases s.len(),
{
    if s.len() == 0 {
        seq![Seq::<char>::empty()]
    } else {
        let p = split_fields(s.drop_last());
        if s.last() == ';' {
            p.push(Seq::<char>::empty())
        } else {
            p.update(p.len() - 1, p.last().push(s.last()))
        }
    }
}

/// Each field followed by a `;`.
pub open spec fn join_fields(fs: Seq<Seq<char>>) -> Seq<char>
    decreases fs.len(),
{
    if fs.len() == 0 {
        Seq::<char>::empty()
    } else {
        join_fields(fs.drop_last()) + fs.last() + seq![';']
    }
}

/// The fields read from a payload: the first twelve parts, defaults after the last.
pub open spec fn parse_fields(s: Seq<char>) -> Seq<Seq<char>> {
    Seq::new(
        12,
        |k: int|
            if k < split_fields(s).len() {
                split_fields(s)[k]
            } else {
                default_fields()[k]
            },
    )
}

/// Whether the text `f` holds no `;`.
pub open spec fn has_no_semicolon(f: Seq<char>) -> bool {
    forall|i: int| 0 <= i < f.len() ==> f[i] != ';'
}

/// Splitting always gives at least one part.
pub proof fn lemma_split_nonempty(s: Seq<char>)
    ensures
        split_fields(s).len() >= 1,
    decreases s.len(),
{
    if s.len() > 0 {
        lemma_split_nonempty(s.drop_last());
    }
}

/// Text without a `;` only lengthens the last part.
proof fn lemma_split_append_plain(s: Seq<char>, t: Seq<char>)
    requires
        has_no_semicolon(t),
    ensures
        split_fields(s + t) == split_fields(s).update(
            split_fields(s).len() - 1,
            split_fields(s).last() + t,
        ),
    decreases t.len(),
{
    lemma_split_nonempty(s);
    let p = split_fields(s);
    if t.len() == 0 {
        assert(s + t =~= s);
        assert(p.last() + t =~= p.last());
        assert(p.update(p.len() - 1, p.last() + t) =~= p);
    } else {
        let u = t.drop_last();
        let c = t.last();
        assert(has_no_semicolon(u));
        lemma_split_append_plain(s, u);
        assert((s + t).drop_last() =~= s + u);
        assert((s + t).last() == c);
        assert(c != ';');
        lemma_split_nonempty(s + u);
        assert((p.last() + u).push(c) =~= p.last() + t);
        assert(split_fields(s + t) =~= p.update(p.len() - 1, p.last() + t));
    }
}

/// Splitting joined fields that hold no `;` gives the fields back, and an
/// empty part after the final `;`.
pub proof fn lemma_split_join(fs: Seq<Seq<char>>)
    requires
        forall|k: int| 0 <= k < fs.len() ==> has_no_semicolon(#[trigger] fs[k]),
    ensures
        split_fields(join_fields(fs)) == fs.push(Seq::<char>::empty()),
    decreases fs.len(),
{
    if fs.len() == 0 {
        assert(split_fields(Seq::<char>::empty()) =~= seq![Seq::<char>::empty()]);
        assert(fs.push(Seq::<char>::empty()) =~= seq![Seq::<char>::empty()]);
    } else {
        let init = fs.drop_last();
        let f = fs.last();
        assert forall|k: int| 0 <= k < init.len() implies has_no_semicolon(#[trigger] init[k]) by {
            assert(init[k] == fs[k]);
        }
        lemma_split_join(init);
        let j = join_fields(init);
        assert(has_no_semicolon(fs[fs.len() - 1]));
        lemma_split_append_plain(j, f);
        let jf = j + f;
        let whole = join_fields(fs);
        assert(whole == jf + seq![';']);
        assert(whole.drop_last() =~= jf);
        assert(whole.last() == ';');
        let e = Seq::<char>::empty();
        assert(init.push(e).last() + f =~= f);
        assert(init.push(e).update(init.len() as int, f) =~= fs);
        assert(split_fields(whole) =~= fs.push(e));
    }
}

fn part_or(parts: &Vec<String>, k: usize, fallback: String) -> (r: String)
    ensures
        r@ == if k < parts@.len() {
            parts@[k as int]@
        } else {
            fallback@
        },
{
    if k < parts.len() {
        parts[k].clone()
    } else {
        fallback
    }
}

impl Default for PongData {
    fn default() -> (r: Self)
        ensures
            fields_of(r) == default_fields(),
    {
        let r = PongData {
            edition: String::from_str("MCPE"),
            motd: String::from_str("phantom Server offline"),
            protocol_version: String::from_str("800"),
            version: String::from_str("1.31.83"),
            players: String::from_str("0"),
            max_players: String::from_str("1"),
            server_id: String::from_str("13253860892328930865"),
            sub_motd: String::from_str("Server Offline"),
            game_mode: String::from_str("Creative"),
            game_mode_numeric: String::from_str("1"),
            port4: String::from_str("19132"),
            port6: String::from_str("19132"),
        };
        assert(fields_of(r) =~= default_fields());
        r
    }
}

impl PongData {
    /// Reads the fields from a `;`-separated payload. Parts past the twelfth
    /// are ignored and fields past the last part keep their default.
    pub fn from_string(data: &str) -> (r: Result<Self, DecodeError>)
        ensures
            r matches Ok(p) && fields_of(p) == parse_fields(data@),
    {
        let ghost s = data@;
        let n = data.unicode_len();
        let mut parts: Vec<String> = Vec::new();
        let mut start: usize = 0;
        let mut i: usize = 0;
        let mut chars = data.chars();
        proof {
            lemma_split_nonempty(s.subrange(0, 0));
            assert(s.subrange(0, 0) =~= Seq::<char>::empty());
            assert(s.subrange(0, n as int) =~= s);
        }
        loop
            invariant
                n == s.len(),
                s == data@,
                start <= i <= n,
                IteratorSpec::remaining(&chars) == s.subrange(i as int, n as int),
                split_fields(s.subrange(0, i as int)).len() >= 1,
                split_fields(s.subrange(0, i as int)).last() == s.subrange(start as int, i as int),
                parts@.len() == if split_fields(s.subrange(0, i as int)).len() - 1 < 12 {
                    split_fields(s.subrange(0, i as int)).len() - 1
                } else {
                    12
                },
                forall|k: int|
                    0 <= k < parts@.len() ==> #[trigger] parts@[k]@ == split_fields(
                        s.subrange(0, i as int),
                    )[k],
            ensures
                i == n,
                start <= i,
                split_fields(s).len() >= 1,
                split_fields(s).last() == s.subrange(start as int, n as int),
                parts@.len() == if split_fields(s).len() - 1 < 12 {
                    split_fields(s).len() - 1
                } else {
                    12
                },
                forall|k: int|
                    0 <= k < parts@.len() ==> #[trigger] parts@[k]@ == split_fields(s)[k],
            decreases n - i,
        {
            let next = chars.next();
            match next {
                None => {
                    assert(s.subrange(0, i as int) =~= s);
                    break;
                },
                Some(c) => {
                    let ghost pre = s.subrange(0, i as int);
                    let ghost post = s.subrange(0, i + 1);
                    let ghost old_parts = split_fields(pre);
                    assert(c == s[i as int]);
                    assert(post.drop_last() =~= pre);
                    assert(post.last() == c);
                    if c == ';' {
                        if parts.len() < 12 {
                            let part = data.substring_char(start, i).to_owned();
                            parts.push(part);
                        }
                        assert(split_fields(post) == old_parts.push(Seq::<char>::empty()));
                        assert(s.subrange(i + 1, i + 1) =~= Seq::<char>::empty());
                        start = i + 1;
                    } else {
                        assert(s.subrange(start as int, i + 1) =~= s.subrange(start as int, i as int).push(c));
                    }
                    i = i + 1;
                },
            }
        }
        if parts.len() < 12 {
            let part = data.substring_char(start, n).to_owned();
            parts.push(part);
        }
        let d = Self::default();
        let r = PongData {
            edition: part_or(&parts, 0, d.edition),
            motd: part_or(&parts, 1, d.motd),
            protocol_version: part_or(&parts, 2, d.protocol_version),
            version: part_or(&parts, 3, d.version),
            players: part_or(&parts, 4, d.players),
            max_players: part_or(&parts, 5, d.max_players),
            server_id: part_or(&parts, 6, d.server_id),
            sub_motd: part_or(&parts, 7, d.sub_motd),
            game_mode: part_or(&parts, 8, d.game_mode),
            game_mode_numeric: part_or(&parts, 9, d.game_mode_numeric),
            port4: part_or(&parts, 10, d.port4),
            port6: part_or(&parts, 11, d.port6),
        };
        assert(fields_of(r) =~= parse_fields(s));
        Ok(r)
    }

    /// The payload text: each field followed by a `;`.
    pub fn to_payload(&self) -> (r: String)
        ensures
            r@ == join_fields(fields_of(*self)),
    {
        let mut r = String::new();
        assert(r@ =~= join_fields(fields_of(*self).take(0)));
        append_field(&mut r, self.edition.as_str(), Ghost(fields_of(*self).take(0)));
        assert(fields_of(*self).take(0).push(self.edition@) =~= fields_of(*self).take(1));
        append_field(&mut r, self.motd.as_str(), Ghost(fields_of(*self).take(1)));
        assert(fields_of(*self).take(1).push(self.motd@) =~= fields_of(*self).take(2));
        append_field(&mut r, self.protocol_version.as_str(), Ghost(fields_of(*self).take(2)));
        assert(fields_of(*self).take(2).push(self.protocol_version@) =~= fields_of(*self).take(3));
        append_field(&mut r, self.version.as_str(), Ghost(fields_of(*self).take(3)));
        assert(fields_of(*self).take(3).push(self.version@) =~= fields_of(*self).take(4));
        append_field(&mut r, self.players.as_str(), Ghost(fields_of(*self).take(4)));
        assert(fields_of(*self).take(4).push(self.players@) =~= fields_of(*self).take(5));
        append_field(&mut r, self.max_players.as_str(), Ghost(fields_of(*self).take(5)));
        assert(fields_of(*self).take(5).push(self.max_players@) =~= fields_of(*self).take(6));
        append_field(&mut r, self.server_id.as_str(), Ghost(fields_of(*self).take(6)));
        assert(fields_of(*self).take(6).push(self.server_id@) =~= fields_of(*self).take(7));
        append_field(&mut r, self.sub_motd.as_str(), Ghost(fields_of(*self).take(7)));
        assert(fields_of(*self).take(7).push(self.sub_motd@) =~= fields_of(*self).take(8));
        append_field(&mut r, self.game_mode.as_str(), Ghost(fields_of(*self).take(8)));
        assert(fields_of(*self).take(8).push(self.game_mode@) =~= fields_of(*self).take(9));
        append_field(&mut r, self.game_mode_numeric.as_str(), Ghost(fields_of(*self).take(9)));
        assert(fields_of(*self).take(9).push(self.game_mode_numeric@) =~= fields_of(*self).take(10));
        append_field(&mut r, self.port4.as_str(), Ghost(fields_of(*self).take(10)));
        assert(fields_of(*self).take(10).push(self.port4@) =~= fields_of(*self).take(11));
        append_field(&mut r, self.port6.as_str(), Ghost(fields_of(*self).take(11)));
        assert(fields_of(*self).take(11).push(self.port6@) =~= fields_of(*self));
        r
    }
}

/// Appends one field and its `;` to a payload that holds the fields `fs`.
fn append_field(r: &mut String, f: &str, Ghost(fs): Ghost<Seq<Seq<char>>>)
    requires
        old(r)@ == join_fields(fs),
    ensures
        final(r)@ == join_fields(fs.push(f@)),
{
    r.append(f);
    r.append(";");
    proof {
        reveal_strlit(";");
        assert(fs.push(f@).drop_last() =~= fs);
        assert(";"@ =~= seq![';']);
    }
}

/// Packet id of an unconnected pong.
pub const UNCONNECTED_PONG_ID: u8 = 0x1c;

/// An unconnected pong: a server's answer to a discovery ping.
#[derive(Debug, Clone)]
pub struct UnconnectedPong {
    pub ping_time: [u8; 8],
    pub server_guid: [u8; 8],
    pub magic: [u8; 16],
    pub pong: PongData,
}

/// The UTF-8 bytes of the payload text of `p`.
pub open spec fn payload_bytes(p: PongData) -> Seq<u8> {
    encode_utf8(join_fields(fields_of(p)))
}

/// `n` as two big-endian bytes.
pub open spec fn be16(n: nat) -> Seq<u8> {
    seq![((n / 256) % 256) as u8, (n % 256) as u8]
}

/// The wire form of a pong. The length field holds the payload's byte count
/// modulo 65536.
pub open spec fn encode_pong(p: UnconnectedPong) -> Seq<u8> {
    seq![UNCONNECTED_PONG_ID] + p.ping_time@ + p.server_guid@ + p.magic@ + be16(
        payload_bytes(p.pong).len() % 65536,
    ) + payload_bytes(p.pong)
}

/// The payload length that a pong datagram declares.
pub open spec fn declared_len(d: Seq<u8>) -> int {
    d[33] as int * 256 + d[34] as int
}

/// The payload bytes of a pong datagram.
pub open spec fn pong_payload(d: Seq<u8>) -> Seq<u8> {
    d.subrange(35, 35 + declared_len(d))
}

/// A datagram decodes as a pong when it is long enough, has the pong id, holds
/// the declared payload in full, and the payload is UTF-8.
pub open spec fn pong_decodes(d: Seq<u8>) -> bool {
    &&& d.len() >= 35
    &&& d[0] == UNCONNECTED_PONG_ID
    &&& 35 + declared_len(d) <= d.len()
    &&& valid_utf8(pong_payload(d))
}

/// The pong read from a datagram that decodes.
pub open spec fn pong_fields_of(d: Seq<u8>, p: UnconnectedPong) -> bool {
    &&& p.ping_time@ == d.subrange(1, 9)
    &&& p.server_guid@ == d.subrange(9, 17)
    &&& p.magic@ == d.subrange(17, 33)
    &&& fields_of(p.pong) == parse_fields(decode_utf8(pong_payload(d)))
}

/// Why `d` does not decode as a pong, for a datagram that does not.
pub open spec fn pong_error(d: Seq<u8>) -> DecodeError {
    if d.len() < 35 {
        DecodeError::TooShort
    } else if d[0] != UNCONNECTED_PONG_ID {
        DecodeError::InvalidPacketId
    } else if 35 + declared_len(d) > d.len() {
        DecodeError::TruncatedPayload
    } else {
        DecodeError::InvalidUtf8
    }
}

/// What decoding `d` as a pong gives.
pub open spec fn pong_decode_result(d: Seq<u8>, r: Result<UnconnectedPong, DecodeError>) -> bool {
    if d.len() < 35 {
        r == Err::<UnconnectedPong, DecodeError>(DecodeError::TooShort)
    } else if d[0] != UNCONNECTED_PONG_ID {
        r == Err::<UnconnectedPong, DecodeError>(DecodeError::InvalidPacketId)
    } else if 35 + declared_len(d) > d.len() {
        r == Err::<UnconnectedPong, DecodeError>(DecodeError::TruncatedPayload)
    } else if !valid_utf8(pong_payload(d)) {
        r == Err::<UnconnectedPong, DecodeError>(DecodeError::InvalidUtf8)
    } else {
        r matches Ok(p) && pong_fields_of(d, p)
    }
}

impl UnconnectedPong {
    /// A pong with zero ping time and guid, the fixed magic, and default fields.
    pub fn new() -> (r: Self)
        ensures
            r.ping_time@ == seq![0u8, 0, 0, 0, 0, 0, 0, 0],
            r.server_guid@ == seq![0u8, 0, 0, 0, 0, 0, 0, 0],
            r.magic@ == magic_bytes(),
            fields_of(r.pong) == default_fields(),
    {
        let r = UnconnectedPong {
            ping_time: [0u8; 8],
            server_guid: [0u8; 8],
            magic: magic(),
            pong: PongData::default(),
        };
        assert(r.ping_time@ =~= seq![0u8, 0, 0, 0, 0, 0, 0, 0]);
        assert(r.server_guid@ =~= seq![0u8, 0, 0, 0, 0, 0, 0, 0]);
        r
    }

    /// The bytes of this pong on the wire.
    pub fn build(&self) -> (r: bytes::Bytes)
        ensures
            bytes_content(r) == encode_pong(*self),
    {
        let mut v: Vec<u8> = Vec::new();
        v.push(UNCONNECTED_PONG_ID);
        push_all(&mut v, self.ping_time.as_slice());
        push_all(&mut v, self.server_guid.as_slice());
        push_all(&mut v, self.magic.as_slice());
        let text = self.pong.to_payload();
        let payload = text.as_str().as_bytes();
        let len: usize = payload.len() % 65536;
        v.push((len / 256) as u8);
        v.push((len % 256) as u8);
        push_all(&mut v, payload);
        assert(v@ =~= encode_pong(*self));
        bytes_from_vec(v)
    }

    /// Reads a pong from the bytes of a datagram.
    pub fn decode(d: &[u8]) -> (r: Result<Self, DecodeError>)
        ensures
            pong_decode_result(d@, r),
            r is Ok <==> pong_decodes(d@),
    {
        if d.len() < 35 {
            return Err(DecodeError::TooShort);
        }
        if d[0] != UNCONNECTED_PONG_ID {
            return Err(DecodeError::InvalidPacketId);
        }
        let ping_time: [u8; 8] = read_padded(d, 1);
        let server_guid: [u8; 8] = read_padded(d, 9);
        let magic: [u8; 16] = read_padded(d, 17);
        assert(ping_time@ =~= d@.subrange(1, 9));
        assert(server_guid@ =~= d@.subrange(9, 17));
        assert(magic@ =~= d@.subrange(17, 33));
        let len: usize = (d[33] as usize) * 256 + (d[34] as usize);
        if d.len() - 35 < len {
            return Err(DecodeError::TruncatedPayload);
        }
        let payload = slice_to_vec(slice_subrange(d, 35, 35 + len));
        match utf8_to_string(payload) {
            None => Err(DecodeError::InvalidUtf8),
            Some(text) => match PongData::from_string(text.as_str()) {
                Ok(pong) => Ok(UnconnectedPong { ping_time, server_guid, magic, pong }),
                Err(e) => Err(e),
            },
        }
    }

    /// Reads a pong from a received buffer.
    pub fn from_bytes(data: bytes::Bytes) -> (r: Result<Self, DecodeError>)
        ensures
            pong_decode_result(bytes_content(data), r),
            r is Ok <==> pong_decodes(bytes_content(data)),
    {
        Self::decode(bytes_as_slice(&data))
    }
}

impl Default for UnconnectedPong {
    fn default() -> (r: Self)
        ensures
            r.ping_time@ == seq![0u8, 0, 0, 0, 0, 0, 0, 0],
            r.server_guid@ == seq![0u8, 0, 0, 0, 0, 0, 0, 0],
            r.magic@ == magic_bytes(),
            fields_of(r.pong) == default_fields(),
    {
        Self::new()
    }
}

/// Reading back the payload text of fields that hold no `;` gives the same
/// twelve fields.
pub proof fn lemma_pong_data_round_trip(p: PongData)
    requires
        forall|k: int| 0 <= k < 12 ==> has_no_semicolon(#[trigger] fields_of(p)[k]),
    ensures
        parse_fields(join_fields(fields_of(p))) == fields_of(p),
{
    let fs = fields_of(p);
    lemma_split_join(fs);
    assert(parse_fields(join_fields(fs)) =~= fs);
}

/// Decoding an encoded pong gives back its ping time, guid, magic and fields,
/// when no field holds a `;` and the payload fits the 16-bit length.
pub proof fn lemma_pong_encode_decode(p: UnconnectedPong, r: Result<UnconnectedPong, DecodeError>)
    requires
        forall|k: int| 0 <= k < 12 ==> has_no_semicolon(#[trigger] fields_of(p.pong)[k]),
        payload_bytes(p.pong).len() <= 65535,
        pong_decode_result(encode_pong(p), r),
    ensures
        r matches Ok(q) && q.ping_time == p.ping_time && q.server_guid == p.server_guid
            && q.magic == p.magic && fields_of(q.pong) == fields_of(p.pong),
{
    let d = encode_pong(p);
    let pb = payload_bytes(p.pong);
    let n = pb.len();
    assert(d.len() == 35 + n);
    assert(d[33] == ((n / 256) % 256) as u8);
    assert(d[34] == (n % 256) as u8);
    assert(declared_len(d) == n) by (nonlinear_arith)
        requires
            declared_len(d) == d[33] as int * 256 + d[34] as int,
            d[33] == ((n / 256) % 256) as u8,
            d[34] == (n % 256) as u8,
            n <= 65535,
    ;
    assert(pong_payload(d) =~= pb);
    encode_utf8_valid_utf8(join_fields(fields_of(p.pong)));
    encode_utf8_decode_utf8(join_fields(fields_of(p.pong)));
    lemma_pong_data_round_trip(p.pong);
    let q = r->Ok_0;
    assert(q.ping_time@ =~= p.ping_time@);
    assert(q.server_guid@ =~= p.server_guid@);
    assert(q.magic@ =~= p.magic@);
}

/// A datagram shorter than a ping's 25 bytes is refused as a ping, and one
/// shorter than a pong's 35 bytes is refused as a pong, both as too short.
pub proof fn lemma_short_datagrams_rejected(
    d: Seq<u8>,
    as_ping: Result<UnconnectedPing, DecodeError>,
    as_pong: Result<UnconnectedPong, DecodeError>,
)
    requires
        ping_decode_result(d, as_ping),
        pong_decode_result(d, as_pong),
    ensures
        d.len() < 25 ==> as_ping == Err::<UnconnectedPing, DecodeError>(DecodeError::TooShort),
        d.len() < 35 ==> as_pong == Err::<UnconnectedPong, DecodeError>(DecodeError::TooShort),
{
}

} // verus!
