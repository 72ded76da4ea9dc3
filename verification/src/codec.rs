//! The codec: turns a typed packet into a length-prefixed frame and a frame
//! back into a typed packet, scoped by the connection state and direction the
//! frame travels in. The spec-level encoding is the single source of truth;
//! the executable encoder and decoder are proved against it, and decoding
//! inverts encoding for every well-formed, state-legal packet.

use vstd::prelude::*;
use crate::state::ConnectionState;
use crate::state::Direction;
use crate::packet::HandshakeFieldsV;
use crate::packet::Packet;
use crate::packet::PacketV;
use crate::packet::PlayerSampleV;
use crate::packet::ProtocolError;
use crate::packet::StatusPayloadV;
use crate::packet::MAX_LONG_FIELD;
use crate::packet::MAX_SAMPLE_ENTRIES;
use crate::packet::MAX_SHORT_FIELD;
use crate::packet::wf_packet;
use crate::packet::wf_sample;
use crate::wire::dec_u16_at;
use crate::wire::dec_u32_at;
use crate::wire::dec_u64_at;
use crate::wire::enc_bytes;
use crate::wire::enc_u16;
use crate::wire::enc_u32;
use crate::wire::enc_u64;
use crate::wire::parse_bytes_at;
use crate::wire::put_bytes;
use crate::wire::put_u16;
use crate::wire::put_u32;
use crate::wire::put_u64;
use crate::wire::push_all;
use crate::packet::wf_status_payload;
use crate::packet::PlayerSample;
use crate::packet::StatusPayload;
use crate::packet::HandshakeFields;
use crate::packet::samples_view;
use crate::wire::read_bytes;
use crate::wire::read_u16;
use crate::wire::read_u32;
use crate::wire::read_u64;
use crate::packet::known_id;
use crate::packet::legal_in;
use crate::packet::wf_handshake;
use crate::wire::lemma_dec_u16;
use crate::wire::lemma_dec_u32;
use crate::wire::lemma_dec_u64;
use crate::wire::lemma_parse_bytes;
use crate::wire::lemma_subrange_mid;
use vstd::seq_lib::lemma_concat_associative;

verus! {

/// Encoding of one player sample entry: name, then identifier.
pub open spec fn enc_sample(s: PlayerSampleV) -> Seq<u8> {
    enc_bytes(s.name) + enc_bytes(s.id)
}

/// Encoding of a player sample list: the entries in order.
pub open spec fn enc_samples(s: Seq<PlayerSampleV>) -> Seq<u8>
    decreases s.len(),
{
    if s.len() == 0 {
        Seq::empty()
    } else {
        enc_sample(s[0]) + enc_samples(s.skip(1))
    }
}

/// The body of a packet's frame: the discriminator byte, then the variant's
/// fields in order.
pub open spec fn spec_encode_body(p: PacketV) -> Seq<u8> {
    match p {
        PacketV::Handshake(h) => seq![0x00u8] + enc_u32(h.protocol_version) + enc_bytes(
            h.server_address,
        ) + enc_u16(h.server_port) + enc_u32(h.next_state),
        PacketV::StatusRequest => seq![0x00u8],
        PacketV::StatusPing { payload } => seq![0x01u8] + enc_u64(payload),
        PacketV::StatusResponse(pl) => seq![0x00u8] + enc_u32(pl.version_protocol) + enc_bytes(
            pl.version_name,
        ) + enc_u32(pl.players_max) + enc_u32(pl.players_online) + enc_u32(
            pl.sample.len() as u32,
        ) + enc_samples(pl.sample) + enc_bytes(pl.description) + enc_bytes(pl.favicon),
        PacketV::StatusPong { payload } => seq![0x01u8] + enc_u64(payload),
        PacketV::LoginStart { name } => seq![0x00u8] + enc_bytes(name),
    }
}

/// A packet's whole frame: the body's length over four bytes, then the body.
pub open spec fn spec_encode(p: PacketV) -> Seq<u8> {
    enc_u32(spec_encode_body(p).len() as u32) + spec_encode_body(p)
}

/// Parses a handshake body (discriminator already matched).
pub open spec fn parse_handshake(b: Seq<u8>) -> Result<PacketV, ProtocolError> {
    if b.len() < 5 {
        Err(ProtocolError::TruncatedFrame)
    } else {
        let pv: u32 = dec_u32_at(b, 1);
        match parse_bytes_at(b, 5, MAX_SHORT_FIELD as int) {
            Err(e) => Err(e),
            Ok((addr, j)) => if b.len() < j + 6 {
                Err(ProtocolError::TruncatedFrame)
            } else if b.len() > j + 6 {
                Err(ProtocolError::MalformedField)
            } else {
                Ok(
                    PacketV::Handshake(
                        HandshakeFieldsV {
                            protocol_version: pv,
                            server_address: addr,
                            server_port: dec_u16_at(b, j),
                            next_state: dec_u32_at(b, j + 2),
                        },
                    ),
                )
            },
        }
    }
}

/// Parses a status request body: nothing may follow the discriminator.
pub open spec fn parse_status_request(b: Seq<u8>) -> Result<PacketV, ProtocolError> {
    if b.len() == 1 {
        Ok(PacketV::StatusRequest)
    } else {
        Err(ProtocolError::MalformedField)
    }
}

/// Parses a ping or pong body: exactly one eight-byte payload.
pub open spec fn parse_payload8(b: Seq<u8>, pong: bool) -> Result<PacketV, ProtocolError> {
    if b.len() < 9 {
        Err(ProtocolError::TruncatedFrame)
    } else if b.len() > 9 {
        Err(ProtocolError::MalformedField)
    } else if pong {
        Ok(PacketV::StatusPong { payload: dec_u64_at(b, 1) })
    } else {
        Ok(PacketV::StatusPing { payload: dec_u64_at(b, 1) })
    }
}

/// Parses a login start body: the player name and nothing more.
pub open spec fn parse_login_start(b: Seq<u8>) -> Result<PacketV, ProtocolError> {
    match parse_bytes_at(b, 1, MAX_SHORT_FIELD as int) {
        Err(e) => Err(e),
        Ok((name, j)) => if b.len() == j {
            Ok(PacketV::LoginStart { name })
        } else {
            Err(ProtocolError::MalformedField)
        },
    }
}

/// Parses `n` sample entries starting at offset `i`, yielding the entries
/// and the offset just past them.
pub open spec fn parse_samples(b: Seq<u8>, i: int, n: nat) -> Result<
    (Seq<PlayerSampleV>, int),
    ProtocolError,
>
    decreases n,
{
    if n == 0 {
        Ok((Seq::empty(), i))
    } else {
        match parse_bytes_at(b, i, MAX_SHORT_FIELD as int) {
            Err(e) => Err(e),
            Ok((name, j)) => match parse_bytes_at(b, j, MAX_SHORT_FIELD as int) {
                Err(e) => Err(e),
                Ok((id, k)) => match parse_samples(b, k, (n - 1) as nat) {
                    Err(e) => Err(e),
                    Ok((rest, e)) => Ok(
                        (seq![PlayerSampleV { name, id }] + rest, e),
                    ),
                },
            },
        }
    }
}

/// Parses a status response body.
pub open spec fn parse_status_response(b: Seq<u8>) -> Result<PacketV, ProtocolError> {
    if b.len() < 5 {
        Err(ProtocolError::TruncatedFrame)
    } else {
        let vp: u32 = dec_u32_at(b, 1);
        match parse_bytes_at(b, 5, MAX_SHORT_FIELD as int) {
            Err(e) => Err(e),
            Ok((vn, j)) => if b.len() < j + 12 {
                Err(ProtocolError::TruncatedFrame)
            } else {
                let pmax: u32 = dec_u32_at(b, j);
                let ponl: u32 = dec_u32_at(b, j + 4);
                let cnt: u32 = dec_u32_at(b, j + 8);
                if cnt > MAX_SAMPLE_ENTRIES as u32 {
                    Err(ProtocolError::MalformedField)
                } else {
                    match parse_samples(b, j + 12, cnt as nat) {
                        Err(e) => Err(e),
                        Ok((sample, k)) => match parse_bytes_at(b, k, MAX_LONG_FIELD as int) {
                            Err(e) => Err(e),
                            Ok((descr, m)) => match parse_bytes_at(b, m, MAX_LONG_FIELD as int) {
                                Err(e) => Err(e),
                                Ok((fav, e)) => if b.len() == e {
                                    Ok(
                                        PacketV::StatusResponse(
                                            StatusPayloadV {
                                                version_protocol: vp,
                                                version_name: vn,
                                                players_max: pmax,
                                                players_online: ponl,
                                                sample: sample,
                                                description: descr,
                                                favicon: fav,
                                            },
                                        ),
                                    )
                                } else {
                                    Err(ProtocolError::MalformedField)
                                },
                            },
                        },
                    }
                }
            },
        }
    }
}

/// Decodes a frame body against the packet set of the given state and
/// direction: the discriminator picks the variant, an unmatched
/// discriminator is `UnknownPacketId`.
pub open spec fn spec_decode_body(state: ConnectionState, dir: Direction, b: Seq<u8>) -> Result<
    PacketV,
    ProtocolError,
> {
    if b.len() < 1 {
        Err(ProtocolError::TruncatedFrame)
    } else {
        match (state, dir) {
            (ConnectionState::Handshake, Direction::Serverbound) => if b[0] == 0x00 {
                parse_handshake(b)
            } else {
                Err(ProtocolError::UnknownPacketId)
            },
            (ConnectionState::Status, Direction::Serverbound) => if b[0] == 0x00 {
                parse_status_request(b)
            } else if b[0] == 0x01 {
                parse_payload8(b, false)
            } else {
                Err(ProtocolError::UnknownPacketId)
            },
            (ConnectionState::Status, Direction::Clientbound) => if b[0] == 0x00 {
                parse_status_response(b)
            } else if b[0] == 0x01 {
                parse_payload8(b, true)
            } else {
                Err(ProtocolError::UnknownPacketId)
            },
            (ConnectionState::Login, Direction::Serverbound) => if b[0] == 0x00 {
                parse_login_start(b)
            } else {
                Err(ProtocolError::UnknownPacketId)
            },
            _ => Err(ProtocolError::UnknownPacketId),
        }
    }
}

/// Decodes a whole frame: the four-byte length prefix must match the body
/// exactly, then the body is decoded against the state's packet set.
pub open spec fn spec_decode(state: ConnectionState, dir: Direction, frame: Seq<u8>) -> Result<
    PacketV,
    ProtocolError,
> {
    if frame.len() < 4 {
        Err(ProtocolError::TruncatedFrame)
    } else {
        let n: int = dec_u32_at(frame, 0) as int;
        if frame.len() < 4 + n {
            Err(ProtocolError::TruncatedFrame)
        } else if frame.len() > 4 + n {
            Err(ProtocolError::MalformedField)
        } else {
            spec_decode_body(state, dir, frame.skip(4))
        }
    }
}

/// Concatenating sample lists concatenates their encodings.
pub proof fn lemma_enc_samples_concat(a: Seq<PlayerSampleV>, b: Seq<PlayerSampleV>)
    ensures
        enc_samples(a + b) == enc_samples(a) + enc_samples(b),
    decreases a.len(),
{
    if a.len() == 0 {
        assert(a + b =~= b);
        assert(enc_samples(a) + enc_samples(b) =~= enc_samples(b));
    } else {
        assert((a + b)[0] == a[0]);
        assert((a + b).skip(1) =~= a.skip(1) + b);
        lemma_enc_samples_concat(a.skip(1), b);
        assert(enc_samples(a + b) =~= enc_samples(a) + enc_samples(b));
    }
}

/// Extending the encoded prefix of a sample list by one entry appends that
/// entry's encoding.
pub proof fn lemma_enc_samples_push(s: Seq<PlayerSampleV>, k: int)
    requires
        0 <= k < s.len(),
    ensures
        enc_samples(s.take(k + 1)) == enc_samples(s.take(k)) + enc_sample(s[k]),
{
    assert(s.take(k + 1) =~= s.take(k) + seq![s[k]]);
    lemma_enc_samples_concat(s.take(k), seq![s[k]]);
    assert(seq![s[k]].skip(1).len() == 0);
    assert(enc_samples(seq![s[k]].skip(1)) =~= Seq::<u8>::empty());
    assert(enc_samples(seq![s[k]]) =~= enc_sample(s[k]));
}

/// A well-formed sample list's encoding is linearly bounded by its length.
pub proof fn lemma_enc_samples_len(s: Seq<PlayerSampleV>)
    requires
        forall|i: int| 0 <= i < s.len() ==> wf_sample(#[trigger] s[i]),
    ensures
        enc_samples(s).len() <= s.len() * (8 + 2 * (MAX_SHORT_FIELD as int)),
    decreases s.len(),
{
    if s.len() == 0 {
    } else {
        assert(forall|i: int| 0 <= i < s.skip(1).len() ==> wf_sample(#[trigger] s.skip(1)[i]))
            by {
            assert(forall|i: int| 0 <= i < s.skip(1).len() ==> #[trigger] s.skip(1)[i] == s[i
                + 1]);
        }
        lemma_enc_samples_len(s.skip(1));
        assert(wf_sample(s[0]));
        assert(enc_sample(s[0]).len() <= 8 + 2 * (MAX_SHORT_FIELD as int));
    }
}

/// A well-formed packet's body is short enough for its length to be carried
/// in the four-byte prefix, with room to spare.
pub proof fn lemma_body_len(p: PacketV)
    requires
        wf_packet(p),
    ensures
        1 <= spec_encode_body(p).len() < 0x8000_0000,
{
    match p {
        PacketV::StatusResponse(pl) => {
            lemma_enc_samples_len(pl.sample);
        },
        _ => {},
    }
}

/// Encodes a packet into a length-prefixed frame. Deterministic, and
/// infallible for every well-formed packet value; callers are responsible
/// for supplying values within the schema's field bounds.
pub fn encode(p: &Packet) -> (r: Vec<u8>)
    requires
        wf_packet(p@),
    ensures
        r@ == spec_encode(p@),
{
    let mut body: Vec<u8> = Vec::new();
    match p {
        Packet::Handshake(h) => {
            body.push(0x00u8);
            put_u32(&mut body, h.protocol_version);
            put_bytes(&mut body, &h.server_address);
            put_u16(&mut body, h.server_port);
            put_u32(&mut body, h.next_state);
            assert(body@ =~= spec_encode_body(p@));
        },
        Packet::StatusRequest => {
            body.push(0x00u8);
            assert(body@ =~= spec_encode_body(p@));
        },
        Packet::StatusPing { payload } => {
            body.push(0x01u8);
            put_u64(&mut body, *payload);
            assert(body@ =~= spec_encode_body(p@));
        },
        Packet::StatusResponse(pl) => {
            body.push(0x00u8);
            put_u32(&mut body, pl.version_protocol);
            put_bytes(&mut body, &pl.version_name);
            put_u32(&mut body, pl.players_max);
            put_u32(&mut body, pl.players_online);
            let cnt: usize = pl.sample.len();
            put_u32(&mut body, cnt as u32);
            let ghost prefix: Seq<u8> = body@;
            let mut k: usize = 0;
            while k < cnt
                invariant
                    wf_status_payload(pl@),
                    cnt == pl@.sample.len(),
                    k <= cnt,
                    body@ == prefix + enc_samples(pl@.sample.take(k as int)),
                decreases cnt - k,
            {
                assert(pl@.sample[k as int] == pl.sample@[k as int]@);
                assert(wf_sample(pl@.sample[k as int]));
                put_bytes(&mut body, &pl.sample[k].name);
                put_bytes(&mut body, &pl.sample[k].id);
                proof {
                    lemma_enc_samples_push(pl@.sample, k as int);
                }
                assert(body@ =~= prefix + enc_samples(pl@.sample.take(k as int + 1)));
                k = k + 1;
            }
            assert(pl@.sample.take(cnt as int) =~= pl@.sample);
            put_bytes(&mut body, &pl.description);
            put_bytes(&mut body, &pl.favicon);
            assert(body@ =~= spec_encode_body(p@));
        },
        Packet::StatusPong { payload } => {
            body.push(0x01u8);
            put_u64(&mut body, *payload);
            assert(body@ =~= spec_encode_body(p@));
        },
        Packet::LoginStart { name } => {
            body.push(0x00u8);
            put_bytes(&mut body, name);
            assert(body@ =~= spec_encode_body(p@));
        },
    }
    proof {
        lemma_body_len(p@);
    }
    let mut frame: Vec<u8> = Vec::new();
    put_u32(&mut frame, body.len() as u32);
    push_all(&mut frame, &body);
    assert(frame@ =~= spec_encode(p@));
    frame
}

/// Where `enc_u16(x)` follows `pre`, reading there gives `x`.
#[verifier::rlimit(100)]
#[verifier::spinoff_prover]
proof fn lemma_dec_u16_pre(b: Seq<u8>, pre: Seq<u8>, x: u16, rest: Seq<u8>)
    requires
        b == pre + enc_u16(x) + rest,
    ensures
        dec_u16_at(b, pre.len() as int) == x,
{
    lemma_subrange_mid(pre, enc_u16(x), rest);
    lemma_dec_u16(b, pre.len() as int, x);
}

/// Where `enc_u32(x)` follows `pre`, reading there gives `x`.
#[verifier::rlimit(100)]
#[verifier::spinoff_prover]
proof fn lemma_dec_u32_pre(b: Seq<u8>, pre: Seq<u8>, x: u32, rest: Seq<u8>)
    requires
        b == pre + enc_u32(x) + rest,
    ensures
        dec_u32_at(b, pre.len() as int) == x,
{
    lemma_subrange_mid(pre, enc_u32(x), rest);
    lemma_dec_u32(b, pre.len() as int, x);
}

/// Where `enc_u64(x)` follows `pre`, reading there gives `x`.
#[verifier::rlimit(100)]
#[verifier::spinoff_prover]
proof fn lemma_dec_u64_pre(b: Seq<u8>, pre: Seq<u8>, x: u64, rest: Seq<u8>)
    requires
        b == pre + enc_u64(x) + rest,
    ensures
        dec_u64_at(b, pre.len() as int) == x,
{
    lemma_subrange_mid(pre, enc_u64(x), rest);
    lemma_dec_u64(b, pre.len() as int, x);
}

/// Where `enc_bytes(v)` follows `pre`, parsing there gives `v` and the
/// offset just past it.
#[verifier::rlimit(100)]
#[verifier::spinoff_prover]
proof fn lemma_parse_bytes_pre(b: Seq<u8>, pre: Seq<u8>, v: Seq<u8>, rest: Seq<u8>, max: int)
    requires
        v.len() <= max,
        v.len() < 0x1_0000_0000,
        b == pre + enc_bytes(v) + rest,
    ensures
        parse_bytes_at(b, pre.len() as int, max) == Ok::<_, ProtocolError>(
            (v, pre.len() + 4 + v.len() as int),
        ),
{
    lemma_subrange_mid(pre, enc_bytes(v), rest);
    assert(enc_bytes(v).len() == 4 + v.len());
    assert(b.subrange(pre.len() as int, pre.len() + 4 + v.len() as int) == enc_bytes(v));
    lemma_parse_bytes(b, pre.len() as int, v, max);
}

/// Where one well-formed sample entry's encoding follows `pre`, its two
/// byte fields parse back, ending just past the entry.
#[verifier::rlimit(100)]
#[verifier::spinoff_prover]
proof fn lemma_parse_sample_entry(b: Seq<u8>, pre: Seq<u8>, s0: PlayerSampleV, rest: Seq<u8>)
    requires
        wf_sample(s0),
        b == pre + enc_sample(s0) + rest,
    ensures
        parse_bytes_at(b, pre.len() as int, MAX_SHORT_FIELD as int) == Ok::<_, ProtocolError>(
            (s0.name, pre.len() + 4 + s0.name.len() as int),
        ),
        parse_bytes_at(
            b,
            pre.len() + 4 + s0.name.len() as int,
            MAX_SHORT_FIELD as int,
        ) == Ok::<_, ProtocolError>((s0.id, pre.len() + enc_sample(s0).len() as int)),
{
    let a1 = enc_bytes(s0.name);
    let a2 = enc_bytes(s0.id);
    assert(enc_sample(s0) == a1 + a2);
    assert(a1.len() == 4 + s0.name.len() && a2.len() == 4 + s0.id.len());
    assert(s0.name.len() <= MAX_SHORT_FIELD as int && s0.id.len() <= MAX_SHORT_FIELD as int);
    assert(b == pre + a1 + (a2 + rest)) by {
        lemma_concat_associative(pre, a1, a2);
        lemma_concat_associative(pre + a1, a2, rest);
    }
    lemma_parse_bytes_pre(b, pre, s0.name, a2 + rest, MAX_SHORT_FIELD as int);
    assert(parse_bytes_at(b, pre.len() as int, MAX_SHORT_FIELD as int) == Ok::<_, ProtocolError>(
        (s0.name, pre.len() + 4 + s0.name.len() as int),
    ));
    assert(b == (pre + a1) + a2 + rest) by {
        lemma_concat_associative(pre + a1, a2, rest);
    }
    lemma_parse_bytes_pre(b, pre + a1, s0.id, rest, MAX_SHORT_FIELD as int);
    assert((pre + a1).len() == pre.len() + 4 + s0.name.len());
    assert(pre.len() + enc_sample(s0).len() as int == (pre + a1).len() + 4 + s0.id.len());
}

/// Where `enc_samples(s)` of a well-formed list follows `pre`, parsing
/// `s.len()` entries there gives exactly `s` and the offset just past them.
#[verifier::rlimit(100)]
#[verifier::spinoff_prover]
proof fn lemma_parse_samples_pre(b: Seq<u8>, pre: Seq<u8>, s: Seq<PlayerSampleV>, rest: Seq<u8>)
    requires
        forall|t: int| 0 <= t < s.len() ==> wf_sample(#[trigger] s[t]),
        b == pre + enc_samples(s) + rest,
    ensures
        parse_samples(b, pre.len() as int, s.len()) == Ok::<_, ProtocolError>(
            (s, pre.len() + enc_samples(s).len() as int),
        ),
    decreases s.len(),
{
    if s.len() == 0 {
        assert(s =~= Seq::<PlayerSampleV>::empty());
    } else {
        let s0 = s[0];
        assert(wf_sample(s0));
        let se = enc_sample(s0);
        let a3 = enc_samples(s.skip(1));
        assert(enc_samples(s) == se + a3);
        assert(b == pre + se + (a3 + rest)) by {
            lemma_concat_associative(pre, se, a3);
            lemma_concat_associative(pre + se, a3, rest);
        }
        lemma_parse_sample_entry(b, pre, s0, a3 + rest);
        assert(forall|t: int| 0 <= t < s.skip(1).len() ==> wf_sample(#[trigger] s.skip(1)[t]))
            by {
            assert(forall|t: int| 0 <= t < s.skip(1).len() ==> #[trigger] s.skip(1)[t] == s[t
                + 1]);
        }
        assert(b == (pre + se) + a3 + rest) by {
            lemma_concat_associative(pre + se, a3, rest);
        }
        lemma_parse_samples_pre(b, pre + se, s.skip(1), rest);
        assert(seq![PlayerSampleV { name: s0.name, id: s0.id }] + s.skip(1) =~= s);
    }
}

/// Decoding a well-formed handshake body gives back the packet.
proof fn lemma_round_trip_handshake(h: HandshakeFieldsV)
    requires
        wf_handshake(h),
    ensures
        parse_handshake(spec_encode_body(PacketV::Handshake(h))) == Ok::<_, ProtocolError>(
            PacketV::Handshake(h),
        ),
{
    let b = spec_encode_body(PacketV::Handshake(h));
    let a: int = h.server_address.len() as int;
    assert(b.len() == 15 + a);
    assert(b =~= seq![0x00u8] + enc_u32(h.protocol_version) + (enc_bytes(h.server_address)
        + enc_u16(h.server_port) + enc_u32(h.next_state)));
    lemma_dec_u32_pre(
        b,
        seq![0x00u8],
        h.protocol_version,
        enc_bytes(h.server_address) + enc_u16(h.server_port) + enc_u32(h.next_state),
    );
    assert(b =~= (seq![0x00u8] + enc_u32(h.protocol_version)) + enc_bytes(h.server_address)
        + (enc_u16(h.server_port) + enc_u32(h.next_state)));
    lemma_parse_bytes_pre(
        b,
        seq![0x00u8] + enc_u32(h.protocol_version),
        h.server_address,
        enc_u16(h.server_port) + enc_u32(h.next_state),
        MAX_SHORT_FIELD as int,
    );
    assert(b =~= (seq![0x00u8] + enc_u32(h.protocol_version) + enc_bytes(h.server_address))
        + enc_u16(h.server_port) + enc_u32(h.next_state));
    lemma_dec_u16_pre(
        b,
        seq![0x00u8] + enc_u32(h.protocol_version) + enc_bytes(h.server_address),
        h.server_port,
        enc_u32(h.next_state),
    );
    assert(b =~= (seq![0x00u8] + enc_u32(h.protocol_version) + enc_bytes(h.server_address)
        + enc_u16(h.server_port)) + enc_u32(h.next_state) + Seq::<u8>::empty());
    lemma_dec_u32_pre(
        b,
        seq![0x00u8] + enc_u32(h.protocol_version) + enc_bytes(h.server_address) + enc_u16(
            h.server_port,
        ),
        h.next_state,
        Seq::<u8>::empty(),
    );
}

/// Decoding a well-formed status response body gives back the packet.
#[verifier::rlimit(100)]
#[verifier::spinoff_prover]
proof fn lemma_round_trip_status_response(pl: StatusPayloadV)
    requires
        wf_status_payload(pl),
    ensures
        parse_status_response(spec_encode_body(PacketV::StatusResponse(pl))) == Ok::<
            _,
            ProtocolError,
        >(PacketV::StatusResponse(pl)),
{
    let b = spec_encode_body(PacketV::StatusResponse(pl));
    let e1 = enc_u32(pl.version_protocol);
    let e2 = enc_bytes(pl.version_name);
    let e3 = enc_u32(pl.players_max);
    let e4 = enc_u32(pl.players_online);
    let e5 = enc_u32(pl.sample.len() as u32);
    let e6 = enc_samples(pl.sample);
    let e7 = enc_bytes(pl.description);
    let e8 = enc_bytes(pl.favicon);
    assert(b == seq![0x00u8] + e1 + e2 + e3 + e4 + e5 + e6 + e7 + e8);
    let v: int = pl.version_name.len() as int;
    let sl: int = e6.len() as int;
    let d: int = pl.description.len() as int;
    let f: int = pl.favicon.len() as int;
    assert(b.len() == 29 + v + sl + d + f);
    assert(b =~= seq![0x00u8] + e1 + (e2 + e3 + e4 + e5 + e6 + e7 + e8));
    lemma_dec_u32_pre(b, seq![0x00u8], pl.version_protocol, e2 + e3 + e4 + e5 + e6 + e7 + e8);
    assert(b =~= (seq![0x00u8] + e1) + e2 + (e3 + e4 + e5 + e6 + e7 + e8));
    lemma_parse_bytes_pre(
        b,
        seq![0x00u8] + e1,
        pl.version_name,
        e3 + e4 + e5 + e6 + e7 + e8,
        MAX_SHORT_FIELD as int,
    );
    assert(b =~= (seq![0x00u8] + e1 + e2) + e3 + (e4 + e5 + e6 + e7 + e8));
    lemma_dec_u32_pre(b, seq![0x00u8] + e1 + e2, pl.players_max, e4 + e5 + e6 + e7 + e8);
    assert(b =~= (seq![0x00u8] + e1 + e2 + e3) + e4 + (e5 + e6 + e7 + e8));
    lemma_dec_u32_pre(b, seq![0x00u8] + e1 + e2 + e3, pl.players_online, e5 + e6 + e7 + e8);
    assert(b =~= (seq![0x00u8] + e1 + e2 + e3 + e4) + e5 + (e6 + e7 + e8));
    lemma_dec_u32_pre(
        b,
        seq![0x00u8] + e1 + e2 + e3 + e4,
        pl.sample.len() as u32,
        e6 + e7 + e8,
    );
    assert(b =~= (seq![0x00u8] + e1 + e2 + e3 + e4 + e5) + e6 + (e7 + e8));
    lemma_parse_samples_pre(b, seq![0x00u8] + e1 + e2 + e3 + e4 + e5, pl.sample, e7 + e8);
    assert(b =~= (seq![0x00u8] + e1 + e2 + e3 + e4 + e5 + e6) + e7 + e8);
    lemma_parse_bytes_pre(
        b,
        seq![0x00u8] + e1 + e2 + e3 + e4 + e5 + e6,
        pl.description,
        e8,
        MAX_LONG_FIELD as int,
    );
    assert(b =~= (seq![0x00u8] + e1 + e2 + e3 + e4 + e5 + e6 + e7) + e8 + Seq::<u8>::empty());
    lemma_parse_bytes_pre(
        b,
        seq![0x00u8] + e1 + e2 + e3 + e4 + e5 + e6 + e7,
        pl.favicon,
        Seq::<u8>::empty(),
        MAX_LONG_FIELD as int,
    );
}

/// Decoding a well-formed login start body gives back the packet.
proof fn lemma_round_trip_login_start(name: Seq<u8>)
    requires
        name.len() <= MAX_SHORT_FIELD as int,
    ensures
        parse_login_start(spec_encode_body(PacketV::LoginStart { name })) == Ok::<
            _,
            ProtocolError,
        >(PacketV::LoginStart { name }),
{
    let b = spec_encode_body(PacketV::LoginStart { name });
    assert(b.len() == 5 + name.len());
    assert(b =~= seq![0x00u8] + enc_bytes(name) + Seq::<u8>::empty());
    lemma_parse_bytes_pre(b, seq![0x00u8], name, Seq::<u8>::empty(), MAX_SHORT_FIELD as int);
}

/// The decode/encode round trip: for every packet variant legal in a state
/// and direction, and every well-formed field value, decoding the encoded
/// frame against that state and direction gives back exactly the packet.
#[verifier::rlimit(100)]
#[verifier::spinoff_prover]
pub proof fn lemma_decode_encode(state: ConnectionState, dir: Direction, p: PacketV)
    requires
        wf_packet(p),
        legal_in(state, dir, p),
    ensures
        spec_decode(state, dir, spec_encode(p)) == Ok::<_, ProtocolError>(p),
{
    let body = spec_encode_body(p);
    let frame = spec_encode(p);
    lemma_body_len(p);
    assert(frame.len() == 4 + body.len());
    assert(frame =~= Seq::<u8>::empty() + enc_u32(body.len() as u32) + body);
    lemma_dec_u32_pre(frame, Seq::<u8>::empty(), body.len() as u32, body);
    assert(frame.skip(4) =~= body);
    match p {
        PacketV::Handshake(h) => {
            assert(body[0] == 0x00);
            lemma_round_trip_handshake(h);
        },
        PacketV::StatusRequest => {
            assert(body[0] == 0x00);
        },
        PacketV::StatusPing { payload } => {
            assert(body[0] == 0x01);
            assert(body =~= seq![0x01u8] + enc_u64(payload) + Seq::<u8>::empty());
            lemma_dec_u64_pre(body, seq![0x01u8], payload, Seq::<u8>::empty());
        },
        PacketV::StatusResponse(pl) => {
            assert(body[0] == 0x00);
            lemma_round_trip_status_response(pl);
        },
        PacketV::StatusPong { payload } => {
            assert(body[0] == 0x01);
            assert(body =~= seq![0x01u8] + enc_u64(payload) + Seq::<u8>::empty());
            lemma_dec_u64_pre(body, seq![0x01u8], payload, Seq::<u8>::empty());
        },
        PacketV::LoginStart { name } => {
            assert(body[0] == 0x00);
            lemma_round_trip_login_start(name);
        },
    }
}

/// A well-framed frame whose discriminator byte opens no variant of the
/// given state's and direction's packet set decodes to `UnknownPacketId` —
/// whatever bytes follow.
pub proof fn lemma_unknown_id_rejected(state: ConnectionState, dir: Direction, frame: Seq<u8>)
    requires
        frame.len() >= 5,
        frame.len() == 4 + dec_u32_at(frame, 0) as int,
        !known_id(state, dir, frame[4]),
    ensures
        spec_decode(state, dir, frame) == Err::<PacketV, ProtocolError>(
            ProtocolError::UnknownPacketId,
        ),
{
    assert(frame.skip(4).len() == frame.len() - 4);
    assert(frame.skip(4)[0] == frame[4]);
}

/// Whatever a frame decodes to is legal in the state and direction it was
/// decoded against: the codec never hands a handler a packet from another
/// state's set.
pub proof fn lemma_decode_yields_legal(state: ConnectionState, dir: Direction, frame: Seq<u8>)
    ensures
        spec_decode(state, dir, frame) matches Ok(p) ==> legal_in(state, dir, p),
{
}

/// The model of a decoder's result: the packet's model on success, the same
/// error otherwise.
pub open spec fn decoded_view(r: Result<Packet, ProtocolError>) -> Result<PacketV, ProtocolError> {
    match r {
        Ok(p) => Ok(p@),
        Err(e) => Err(e),
    }
}

/// Reads one length-prefixed byte field at offset `i`, enforcing `max`.
fn take_bytes(b: &Vec<u8>, i: usize, max: usize) -> (r: Result<(Vec<u8>, usize), ProtocolError>)
    requires
        i <= b@.len(),
    ensures
        (match r {
            Ok(pair) => parse_bytes_at(b@, i as int, max as int) == Ok::<_, ProtocolError>(
                (pair.0@, pair.1 as int),
            ) && i <= pair.1 <= b@.len(),
            Err(e) => parse_bytes_at(b@, i as int, max as int) == Err::<(Seq<u8>, int), _>(e),
        }),
{
    let len: usize = b.len();
    if len - i < 4 {
        return Err(ProtocolError::TruncatedFrame);
    }
    let n32: u32 = read_u32(b, i);
    let n: usize = n32 as usize;
    if n > max {
        return Err(ProtocolError::MalformedField);
    }
    let i4: usize = i + 4;
    if n > len - i4 {
        return Err(ProtocolError::TruncatedFrame);
    }
    let v: Vec<u8> = read_bytes(b, i4, n);
    Ok((v, i4 + n))
}

/// Decodes a handshake body (discriminator already matched).
fn decode_handshake(b: &Vec<u8>) -> (r: Result<Packet, ProtocolError>)
    ensures
        decoded_view(r) == parse_handshake(b@),
{
    let blen: usize = b.len();
    if blen < 5 {
        return Err(ProtocolError::TruncatedFrame);
    }
    let pv: u32 = read_u32(b, 1);
    let (addr, j) = match take_bytes(b, 5, MAX_SHORT_FIELD) {
        Ok(p) => p,
        Err(e) => { return Err(e) },
    };
    if blen - j < 6 {
        return Err(ProtocolError::TruncatedFrame);
    }
    if blen - j > 6 {
        return Err(ProtocolError::MalformedField);
    }
    let port: u16 = read_u16(b, j);
    let ns: u32 = read_u32(b, j + 2);
    Ok(
        Packet::Handshake(
            HandshakeFields {
                protocol_version: pv,
                server_address: addr,
                server_port: port,
                next_state: ns,
            },
        ),
    )
}

/// Decodes a ping or pong body: exactly one eight-byte payload.
fn decode_payload8(b: &Vec<u8>, pong: bool) -> (r: Result<Packet, ProtocolError>)
    ensures
        decoded_view(r) == parse_payload8(b@, pong),
{
    let blen: usize = b.len();
    if blen < 9 {
        return Err(ProtocolError::TruncatedFrame);
    }
    if blen > 9 {
        return Err(ProtocolError::MalformedField);
    }
    let payload: u64 = read_u64(b, 1);
    if pong {
        Ok(Packet::StatusPong { payload })
    } else {
        Ok(Packet::StatusPing { payload })
    }
}

/// Decodes a login start body.
fn decode_login_start(b: &Vec<u8>) -> (r: Result<Packet, ProtocolError>)
    ensures
        decoded_view(r) == parse_login_start(b@),
{
    let blen: usize = b.len();
    if blen < 1 {
        return Err(ProtocolError::TruncatedFrame);
    }
    let (name, j) = match take_bytes(b, 1, MAX_SHORT_FIELD) {
        Ok(p) => p,
        Err(e) => { return Err(e) },
    };
    if blen != j {
        return Err(ProtocolError::MalformedField);
    }
    Ok(Packet::LoginStart { name })
}

/// Decodes a status response body.
fn decode_status_response(b: &Vec<u8>) -> (r: Result<Packet, ProtocolError>)
    ensures
        decoded_view(r) == parse_status_response(b@),
{
    let blen: usize = b.len();
    if blen < 5 {
        return Err(ProtocolError::TruncatedFrame);
    }
    let vp: u32 = read_u32(b, 1);
    let (vn, j) = match take_bytes(b, 5, MAX_SHORT_FIELD) {
        Ok(p) => p,
        Err(e) => { return Err(e) },
    };
    if blen - j < 12 {
        return Err(ProtocolError::TruncatedFrame);
    }
    let pmax: u32 = read_u32(b, j);
    let ponl: u32 = read_u32(b, j + 4);
    let cnt32: u32 = read_u32(b, j + 8);
    if cnt32 > MAX_SAMPLE_ENTRIES as u32 {
        return Err(ProtocolError::MalformedField);
    }
    let cnt: usize = cnt32 as usize;
    let start: usize = j + 12;
    let mut sample: Vec<PlayerSample> = Vec::new();
    let mut cur: usize = start;
    let mut k: usize = 0;
    #[verifier::loop_isolation(false)]
    while k < cnt
        invariant
            cur <= b@.len(),
            k <= cnt,
            parse_samples(b@, start as int, cnt as nat) == (match parse_samples(
                b@,
                cur as int,
                (cnt - k) as nat,
            ) {
                Ok((rest, e)) => Ok::<_, ProtocolError>((samples_view(sample@) + rest, e)),
                Err(e) => Err::<(Seq<PlayerSampleV>, int), _>(e),
            }),
        decreases cnt - k,
    {
        let (nm, p1) = match take_bytes(b, cur, MAX_SHORT_FIELD) {
            Ok(p) => p,
            Err(e) => { return Err(e) },
        };
        let (idv, p2) = match take_bytes(b, p1, MAX_SHORT_FIELD) {
            Ok(p) => p,
            Err(e) => { return Err(e) },
        };
        let ghost old_sample = sample@;
        let ghost s0 = PlayerSampleV { name: nm@, id: idv@ };
        sample.push(PlayerSample { name: nm, id: idv });
        proof {
            assert(samples_view(sample@) =~= samples_view(old_sample) + seq![s0]);
            lemma_concat_associative(
                samples_view(old_sample),
                seq![s0],
                Seq::<PlayerSampleV>::empty(),
            );
        }
        cur = p2;
        k = k + 1;
        proof {
            assert(parse_samples(b@, start as int, cnt as nat) == (match parse_samples(
                b@,
                cur as int,
                (cnt - k) as nat,
            ) {
                Ok((rest, e)) => Ok::<_, ProtocolError>((samples_view(sample@) + rest, e)),
                Err(e) => Err::<(Seq<PlayerSampleV>, int), _>(e),
            })) by {
                let pr = parse_samples(b@, cur as int, (cnt - k) as nat);
                if pr is Ok {
                    let rest = pr->Ok_0.0;
                    lemma_concat_associative(samples_view(old_sample), seq![s0], rest);
                    assert(samples_view(old_sample) + (seq![s0] + rest) == samples_view(sample@)
                        + rest);
                }
            }
        }
    }
    proof {
        assert(samples_view(sample@) + Seq::<PlayerSampleV>::empty() =~= samples_view(sample@));
    }
    let (descr, m) = match take_bytes(b, cur, MAX_LONG_FIELD) {
        Ok(p) => p,
        Err(e) => { return Err(e) },
    };
    let (fav, e) = match take_bytes(b, m, MAX_LONG_FIELD) {
        Ok(p) => p,
        Err(e) => { return Err(e) },
    };
    if blen != e {
        return Err(ProtocolError::MalformedField);
    }
    Ok(
        Packet::StatusResponse(
            StatusPayload {
                version_protocol: vp,
                version_name: vn,
                players_max: pmax,
                players_online: ponl,
                sample: sample,
                description: descr,
                favicon: fav,
            },
        ),
    )
}

/// Decodes a frame body against the packet set of the given state and
/// direction.
fn decode_body(state: ConnectionState, dir: Direction, b: &Vec<u8>) -> (r: Result<
    Packet,
    ProtocolError,
>)
    ensures
        decoded_view(r) == spec_decode_body(state, dir, b@),
{
    let blen: usize = b.len();
    if blen < 1 {
        return Err(ProtocolError::TruncatedFrame);
    }
    let id: u8 = b[0];
    match (state, dir) {
        (ConnectionState::Handshake, Direction::Serverbound) => if id == 0x00 {
            decode_handshake(b)
        } else {
            Err(ProtocolError::UnknownPacketId)
        },
        (ConnectionState::Status, Direction::Serverbound) => if id == 0x00 {
            if blen == 1 {
                Ok(Packet::StatusRequest)
            } else {
                Err(ProtocolError::MalformedField)
            }
        } else if id == 0x01 {
            decode_payload8(b, false)
        } else {
            Err(ProtocolError::UnknownPacketId)
        },
        (ConnectionState::Status, Direction::Clientbound) => if id == 0x00 {
            decode_status_response(b)
        } else if id == 0x01 {
            decode_payload8(b, true)
        } else {
            Err(ProtocolError::UnknownPacketId)
        },
        (ConnectionState::Login, Direction::Serverbound) => if id == 0x00 {
            decode_login_start(b)
        } else {
            Err(ProtocolError::UnknownPacketId)
        },
        _ => Err(ProtocolError::UnknownPacketId),
    }
}

/// Decodes a length-prefixed frame against the packet set of the given
/// state and direction. Interprets the frame's leading discriminator against
/// that set; fails with `UnknownPacketId` on a discriminator with no variant
/// there, `TruncatedFrame` on missing bytes, `MalformedField` on a field or
/// framing violation. Touches no connection state.
pub fn decode(state: ConnectionState, dir: Direction, frame: &Vec<u8>) -> (r: Result<
    Packet,
    ProtocolError,
>)
    ensures
        decoded_view(r) == spec_decode(state, dir, frame@),
{
    let flen: usize = frame.len();
    if flen < 4 {
        return Err(ProtocolError::TruncatedFrame);
    }
    let n32: u32 = read_u32(frame, 0);
    let n: usize = n32 as usize;
    if flen - 4 < n {
        return Err(ProtocolError::TruncatedFrame);
    }
    if flen - 4 > n {
        return Err(ProtocolError::MalformedField);
    }
    let body: Vec<u8> = read_bytes(frame, 4, flen - 4);
    assert(body@ =~= frame@.skip(4));
    decode_body(state, dir, &body)
}

} // verus!
