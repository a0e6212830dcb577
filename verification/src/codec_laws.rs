//! Round-trip laws of the codec, stated over the same specification
//! functions the executable encoder and decoder are verified against.

use vstd::prelude::*;
use crate::control_packet::ControlPacketModel;
use crate::decode_error::ReadError;
use crate::fixed_header::{ControlPacketType, FixedHeaderModel, spec_packet_type_from_u8, spec_packet_type_nibble};
use crate::payload::PayloadModel;
use crate::qos_level::{QoSLevel, spec_qos_as_u8, spec_qos_from_u8};
use crate::reason_code::{spec_reason_as_u8, spec_reason_from_u8};
use crate::topic::{TopicFilterModel, spec_retain_handling_as_u8, spec_retain_handling_from_u8};
use crate::variable_header::{PropertyModel, VariableHeaderModel};
use crate::packet_wire::{
    b2i, spec_empty_props, spec_encode_first_byte, spec_encode_packet, spec_encode_payload,
    spec_encode_topic_filters, spec_encode_variable_header, spec_packet_flags, spec_parse_fixed_header,
    spec_parse_packet, spec_parse_payload, spec_parse_props, spec_parse_props_items, spec_parse_topic_filter,
    spec_parse_topic_filters, spec_parse_variable_header, spec_payload_filters, spec_payload_publish,
    spec_subscription_options_byte, spec_vh_ack, spec_vh_publish, spec_vh_sub_unsub,
};
use crate::wire::{
    VBI_MAX, lemma_parse_u16_of_encoding, lemma_parse_utf8_of_encoding, lemma_parse_binary_of_encoding,
    lemma_parse_vbi_of_encoding, lemma_vbi_encode_len, spec_encode_binary, spec_encode_utf8_string,
    spec_parse_u8, spec_parse_vbi, spec_u16_be, spec_vbi_encode,
};

verus! {

/// `content` lies in `bytes` starting at `pos`.
pub open spec fn region_is(bytes: Seq<u8>, pos: int, content: Seq<u8>) -> bool {
    &&& 0 <= pos
    &&& pos + content.len() <= bytes.len()
    &&& bytes.subrange(pos, pos + content.len()) == content
}

proof fn lemma_region_split(bytes: Seq<u8>, pos: int, a: Seq<u8>, b: Seq<u8>)
    requires
        region_is(bytes, pos, a + b),
    ensures
        region_is(bytes, pos, a),
        region_is(bytes, pos + a.len(), b),
{
    let ab = a + b;
    assert(bytes.subrange(pos, pos + a.len()) =~= a) by {
        assert(forall|i: int|
            0 <= i < a.len() ==> #[trigger] bytes.subrange(pos, pos + a.len())[i] == bytes.subrange(
                pos,
                pos + ab.len(),
            )[i]);
    }
    assert(bytes.subrange(pos + a.len(), pos + a.len() + b.len()) =~= b) by {
        assert(forall|i: int|
            0 <= i < b.len() ==> #[trigger] bytes.subrange(pos + a.len(), pos + a.len() + b.len())[i]
                == bytes.subrange(pos, pos + ab.len())[i + a.len()]);
    }
}


proof fn lemma_region_whole(bytes: Seq<u8>, content: Seq<u8>)
    requires
        bytes == content,
    ensures
        region_is(bytes, 0, content),
{
    assert(bytes.subrange(0, content.len() as int) =~= content);
}

proof fn lemma_region_byte(bytes: Seq<u8>, pos: int, x: u8)
    requires
        region_is(bytes, pos, seq![x]),
    ensures
        pos < bytes.len(),
        bytes[pos] == x,
        spec_parse_u8(bytes, pos) == Ok::<(u8, int), ReadError>((x, pos + 1)),
{
    assert(bytes.subrange(pos, pos + 1)[0] == x);
}

/// A zero-length property block parses to no properties.
proof fn lemma_parse_empty_props(bytes: Seq<u8>, pos: int)
    requires
        region_is(bytes, pos, spec_empty_props()),
    ensures
        spec_parse_props(bytes, pos) == Ok::<(Seq<PropertyModel>, int), crate::decode_error::DecodeError>((
            Seq::<PropertyModel>::empty(),
            pos + 1,
        )),
{
    lemma_region_byte(bytes, pos, 0u8);
    assert(spec_parse_vbi(bytes, pos) == Ok::<(u64, int), ReadError>((0u64, pos + 1)));
    assert(spec_parse_props_items(bytes, pos + 1, 0) == Ok::<(Seq<PropertyModel>, int),
        crate::decode_error::DecodeError>((Seq::<PropertyModel>::empty(), pos + 1)));
}

/// Round trip of the variable-byte integer: decoding the encoding yields the
/// value back, and the encoding takes one byte per started 7-bit group.
/// Values above the four-byte range are refused by the encoder.
pub proof fn lemma_variable_byte_integer_round_trip(n: u64)
    requires
        n <= VBI_MAX,
    ensures
        spec_parse_vbi(spec_vbi_encode(n as int), 0) == Ok::<(u64, int), ReadError>((
            n,
            spec_vbi_encode(n as int).len() as int,
        )),
        spec_vbi_encode(n as int).len() == if n < 128 {
            1int
        } else if n < 16384 {
            2int
        } else if n < 2097152 {
            3int
        } else {
            4int
        },
{
    let enc = spec_vbi_encode(n as int);
    lemma_vbi_encode_len(n as int);
    assert(enc.subrange(0, enc.len() as int) =~= enc);
    lemma_parse_vbi_of_encoding(enc, 0, n as int);
}

/// The normal form a subscription entry returns in: the reserved bits padded
/// to the two bits the option byte carries.
pub open spec fn spec_normalize_filter(f: TopicFilterModel) -> TopicFilterModel {
    TopicFilterModel {
        topic_filter: f.topic_filter,
        maximum_qos: f.maximum_qos,
        no_local: f.no_local,
        retain_as_published: f.retain_as_published,
        retain_handling: f.retain_handling,
        reserved_bits: seq![
            f.reserved_bits.len() > 0 && f.reserved_bits[0],
            f.reserved_bits.len() > 1 && f.reserved_bits[1],
        ],
    }
}

/// What decoding gives back for an encoded packet: the same packet with the
/// fields the encoder synthesizes replaced — the body length recomputed, every
/// property list empty (the encoder emits an empty block), a PUBLISH payload
/// made explicit, and subscription reserved bits padded to two.
pub open spec fn spec_normalize_packet(m: ControlPacketModel, rem: u64) -> ControlPacketModel {
    ControlPacketModel {
        fixed_header: FixedHeaderModel {
            packet_type: m.fixed_header.packet_type,
            control_flags: m.fixed_header.control_flags,
            remaining_length: rem,
            dup_flag: m.fixed_header.dup_flag,
            qos_level: m.fixed_header.qos_level,
            retain: m.fixed_header.retain,
        },
        variable_header: match m.variable_header {
            None => None,
            Some(v) => Some(VariableHeaderModel {
                protocol_name: v.protocol_name,
                protocol_version: v.protocol_version,
                connect_flags: v.connect_flags,
                keep_alive: v.keep_alive,
                connect_acknowledge_flags: v.connect_acknowledge_flags,
                reason_code: v.reason_code,
                properties: Seq::<PropertyModel>::empty(),
                packet_identifier: v.packet_identifier,
                topic_name: v.topic_name,
            }),
        },
        payload: match m.fixed_header.packet_type {
            ControlPacketType::PUBLISH => Some(spec_payload_publish(
                match m.payload {
                    Some(p) => match p.data {
                        Some(d) => d,
                        None => Seq::<u8>::empty(),
                    },
                    None => Seq::<u8>::empty(),
                },
            )),
            ControlPacketType::SUBSCRIBE => match m.payload {
                Some(p) => match p.topic_filters {
                    Some(fs) => Some(spec_payload_filters(Seq::new(fs.len(), |i: int| spec_normalize_filter(fs[i])))),
                    None => None,
                },
                None => None,
            },
            ControlPacketType::CONNECT => match m.payload {
                Some(p) => Some(PayloadModel {
                    client_id: p.client_id,
                    will_properties: match p.will_properties {
                        Some(_) => Some(Seq::<PropertyModel>::empty()),
                        None => None,
                    },
                    will_topic: p.will_topic,
                    will_payload: p.will_payload,
                    username: p.username,
                    password: p.password,
                    topic_filters: None,
                    reason_codes: None,
                    data: None,
                }),
                None => None,
            },
            _ => m.payload,
        },
    }
}

/// A reason code whose byte value reads back as itself.  The three codes
/// that share the byte `0x00` all read back as `Success`, so only `Success`
/// itself round-trips among them.
pub open spec fn spec_reason_round_trips(rc: crate::reason_code::ReasonCode) -> bool {
    spec_reason_from_u8(spec_reason_as_u8(rc)) == Some(rc)
}

/// The shapes the public packet constructors build, for the packet types the
/// server decodes inbound.  CONNACK, SUBACK and UNSUBACK are server-to-client
/// only: the decoder reads no variable header for them, so they are not here.
pub open spec fn spec_wf_constructed(m: ControlPacketModel) -> bool {
    let fh = m.fixed_header;
    match fh.packet_type {
        ControlPacketType::CONNECT => {
            &&& fh.control_flags matches Some(f) && f.len() == 4
            &&& fh.dup_flag is None && fh.qos_level is None && fh.retain is None
            &&& m.variable_header matches Some(v)
            &&& v.protocol_name is Some && v.protocol_version is Some
            &&& v.connect_flags is Some && v.keep_alive is Some
            &&& v.connect_acknowledge_flags is None && v.reason_code is None
            &&& v.packet_identifier is None && v.topic_name is None
            &&& m.payload matches Some(p)
            &&& p.client_id is Some
            &&& (v.connect_flags->0.will_flag <==> p.will_topic is Some)
            &&& (v.connect_flags->0.will_flag <==> p.will_payload is Some)
            &&& (v.connect_flags->0.will_flag <==> p.will_properties is Some)
            &&& (v.connect_flags->0.username_flag <==> p.username is Some)
            &&& (v.connect_flags->0.password_flag <==> p.password is Some)
            &&& p.topic_filters is None && p.reason_codes is None && p.data is None
        },
        ControlPacketType::PUBLISH => {
            &&& fh.control_flags is None
            &&& fh.dup_flag is Some && fh.qos_level is Some && fh.retain is Some
            &&& m.variable_header matches Some(v)
            &&& v.topic_name is Some
            &&& (v.packet_identifier is Some <==> fh.qos_level->0 != QoSLevel::AtMostOnce)
            &&& v.protocol_name is None && v.protocol_version is None && v.connect_flags is None
            &&& v.keep_alive is None && v.connect_acknowledge_flags is None && v.reason_code is None
            &&& match m.payload {
                None => true,
                Some(p) => {
                    &&& p.data is Some
                    &&& p.client_id is None && p.will_properties is None && p.will_topic is None
                    &&& p.will_payload is None && p.username is None && p.password is None
                    &&& p.topic_filters is None && p.reason_codes is None
                },
            }
        },
        ControlPacketType::PUBACK | ControlPacketType::PUBREC | ControlPacketType::PUBREL
            | ControlPacketType::PUBCOMP => {
            &&& fh.control_flags matches Some(f) && f.len() == 4
            &&& fh.dup_flag is None && fh.qos_level is None && fh.retain is None
            &&& m.variable_header matches Some(v)
            &&& v.packet_identifier is Some
            &&& match v.reason_code {
                None => true,
                Some(rc) => spec_reason_round_trips(rc),
            }
            &&& v.protocol_name is None && v.protocol_version is None && v.connect_flags is None
            &&& v.keep_alive is None && v.connect_acknowledge_flags is None && v.topic_name is None
            &&& m.payload is None
        },
        ControlPacketType::SUBSCRIBE => {
            &&& fh.control_flags matches Some(f) && f.len() == 4
            &&& fh.dup_flag is None && fh.qos_level is None && fh.retain is None
            &&& m.variable_header matches Some(v)
            &&& v.packet_identifier is Some
            &&& v.protocol_name is None && v.protocol_version is None && v.connect_flags is None
            &&& v.keep_alive is None && v.connect_acknowledge_flags is None && v.reason_code is None
            &&& v.topic_name is None
            &&& m.payload matches Some(p)
            &&& p.topic_filters matches Some(fs)
            &&& forall|i: int| 0 <= i < fs.len() ==> (#[trigger] fs[i].reserved_bits.len() == 0
                || fs[i].reserved_bits.len() == 2)
            &&& p.client_id is None && p.will_properties is None && p.will_topic is None
            &&& p.will_payload is None && p.username is None && p.password is None
            &&& p.reason_codes is None && p.data is None
        },
        ControlPacketType::PINGREQ | ControlPacketType::PINGRESP => {
            &&& fh.control_flags matches Some(f) && f.len() == 4
            &&& fh.dup_flag is None && fh.qos_level is None && fh.retain is None
            &&& m.variable_header is None
            &&& m.payload is None
        },
        ControlPacketType::DISCONNECT => {
            &&& fh.control_flags matches Some(f) && f.len() == 4
            &&& fh.dup_flag is None && fh.qos_level is None && fh.retain is None
            &&& m.variable_header matches Some(v)
            &&& v.reason_code matches Some(rc) && spec_reason_round_trips(rc)
            &&& v.protocol_name is None && v.protocol_version is None && v.connect_flags is None
            &&& v.keep_alive is None && v.connect_acknowledge_flags is None
            &&& v.packet_identifier is None && v.topic_name is None
            &&& m.payload is None
        },
        _ => false,
    }
}

/// The body length an encodable packet gets.
pub open spec fn spec_encoded_body_len(m: ControlPacketModel) -> int {
    spec_encode_variable_header(m.fixed_header.packet_type, m.variable_header)->Ok_0.len()
        + spec_encode_payload(m.fixed_header.packet_type, spec_packet_flags(m), m.payload)->Ok_0.len() as int
}

/// Parsing the first byte of an encoded fixed header recovers the packet
/// type and the flags.
proof fn lemma_first_byte_round_trip(fh: FixedHeaderModel)
    requires
        spec_encode_first_byte(fh) is Ok,
    ensures
        ({
            let b = spec_encode_first_byte(fh)->Ok_0;
            &&& spec_packet_type_from_u8((b / 16) as u8) == Some(fh.packet_type)
            &&& (fh.packet_type is PUBLISH ==> {
                let low = b as int % 16;
                &&& ((low / 8) % 2 == 1) == fh.dup_flag->0
                &&& spec_qos_from_u8((((low / 2) % 4)) as u8) == Some(fh.qos_level->0)
                &&& (low % 2 == 1) == fh.retain->0
            })
            &&& (!(fh.packet_type is PUBLISH) ==> {
                let low = b as int % 16;
                seq![(low / 8) % 2 == 1, (low / 4) % 2 == 1, (low / 2) % 2 == 1, low % 2 == 1]
                    == fh.control_flags->0
            })
        }),
{
    let b = spec_encode_first_byte(fh)->Ok_0;
    let nib = spec_packet_type_nibble(fh.packet_type);
    if fh.packet_type is PUBLISH {
        let pn = crate::packet_wire::spec_publish_nibble(fh.dup_flag->0, fh.qos_level->0, fh.retain->0);
        assert(0 <= pn < 16);
        assert(b == nib * 16 + pn);
        assert(b as int / 16 == nib as int);
        assert(b as int % 16 == pn);
        assert(spec_packet_type_from_u8(nib) == Some(fh.packet_type));
    } else {
        let f = fh.control_flags->0;
        let fn_ = crate::packet_wire::spec_flags_nibble(f);
        assert(0 <= fn_ < 16);
        assert(b == nib * 16 + fn_);
        assert(b as int / 16 == nib as int);
        assert(b as int % 16 == fn_);
        assert(spec_packet_type_from_u8(nib) == Some(fh.packet_type));
        let low = b as int % 16;
        assert(seq![(low / 8) % 2 == 1, (low / 4) % 2 == 1, (low / 2) % 2 == 1, low % 2 == 1] =~= f) by {
            assert((low / 8) % 2 == b2i(f[0]));
            assert((low / 4) % 2 == 1 <==> f[1]);
            assert((low / 2) % 2 == 1 <==> f[2]);
            assert(low % 2 == 1 <==> f[3]);
        }
    }
}

/// Parsing an encoded fixed header at the front of `bytes` recovers the
/// header with the body length it was written with.
proof fn lemma_fixed_header_round_trip(bytes: Seq<u8>, fh: FixedHeaderModel, rem: int)
    requires
        spec_encode_first_byte(fh) is Ok,
        0 <= rem <= VBI_MAX,
        region_is(bytes, 0, seq![spec_encode_first_byte(fh)->Ok_0] + spec_vbi_encode(rem)),
    ensures
        spec_parse_fixed_header(bytes, 0) == Ok::<(FixedHeaderModel, int), crate::decode_error::DecodeError>((
            FixedHeaderModel {
                packet_type: fh.packet_type,
                control_flags: if fh.packet_type is PUBLISH {
                    None
                } else {
                    fh.control_flags
                },
                remaining_length: rem as u64,
                dup_flag: if fh.packet_type is PUBLISH {
                    fh.dup_flag
                } else {
                    None
                },
                qos_level: if fh.packet_type is PUBLISH {
                    fh.qos_level
                } else {
                    None
                },
                retain: if fh.packet_type is PUBLISH {
                    fh.retain
                } else {
                    None
                },
            },
            1 + spec_vbi_encode(rem).len() as int,
        )),
{
    let b = spec_encode_first_byte(fh)->Ok_0;
    lemma_region_split(bytes, 0, seq![b], spec_vbi_encode(rem));
    lemma_region_byte(bytes, 0, b);
    lemma_parse_vbi_of_encoding(bytes, 1, rem);
    lemma_first_byte_round_trip(fh);
    let parsed = spec_parse_fixed_header(bytes, 0);
    if fh.packet_type is PUBLISH {
        assert(parsed is Ok);
        assert(parsed->Ok_0.0 =~= FixedHeaderModel {
            packet_type: fh.packet_type,
            control_flags: None,
            remaining_length: rem as u64,
            dup_flag: fh.dup_flag,
            qos_level: fh.qos_level,
            retain: fh.retain,
        });
    } else {
        assert(parsed is Ok);
        assert(parsed->Ok_0.0.control_flags->0 == fh.control_flags->0);
        assert(parsed->Ok_0.0 =~= FixedHeaderModel {
            packet_type: fh.packet_type,
            control_flags: fh.control_flags,
            remaining_length: rem as u64,
            dup_flag: None,
            qos_level: None,
            retain: None,
        });
    }
}


/// Parsing an encoded acknowledgment variable header (PUBACK, PUBREC,
/// PUBREL, PUBCOMP) recovers the identifier and the reason code.
proof fn lemma_ack_vh_round_trip(body: Seq<u8>, v: VariableHeaderModel, t: ControlPacketType)
    requires
        t is PUBACK || t is PUBREC || t is PUBREL || t is PUBCOMP,
        v.packet_identifier is Some,
        match v.reason_code {
            None => true,
            Some(rc) => spec_reason_round_trips(rc),
        },
        spec_encode_variable_header(t, Some(v)) is Ok,
        body == spec_encode_variable_header(t, Some(v))->Ok_0,
    ensures
        crate::packet_wire::spec_parse_ack_header(body, 0) == Ok::<(Option<VariableHeaderModel>, int),
            crate::decode_error::DecodeError>((
            Some(spec_vh_ack(v.packet_identifier, v.reason_code)),
            body.len() as int - 1,
        )),
{
    let pid = v.packet_identifier->0;
    match v.reason_code {
        Some(rc) => {
            let rb = spec_reason_as_u8(rc);
            assert(body == spec_u16_be(pid) + seq![rb] + spec_empty_props());
            lemma_region_whole(body, (spec_u16_be(pid) + seq![rb]) + spec_empty_props());
            lemma_region_split(body, 0, spec_u16_be(pid) + seq![rb], spec_empty_props());
            lemma_region_split(body, 0, spec_u16_be(pid), seq![rb]);
            lemma_parse_u16_of_encoding(body, 0, pid);
            lemma_region_byte(body, 2, rb);
            assert(body.len() == 4);
            assert(spec_reason_from_u8(rb) == Some(rc));
        },
        None => {
            assert(body == spec_u16_be(pid) + spec_empty_props());
            lemma_region_whole(body, spec_u16_be(pid) + spec_empty_props());
            lemma_region_split(body, 0, spec_u16_be(pid), spec_empty_props());
            lemma_parse_u16_of_encoding(body, 0, pid);
            assert(body.len() == 3);
        },
    }
}

/// Parsing an encoded CONNECT flag byte recovers every flag.
proof fn lemma_connect_flags_round_trip(f: crate::variable_header::ConnectFlags)
    ensures
        ({
            let fb = crate::packet_wire::spec_connect_flags_byte(f);
            &&& 0 <= fb < 256
            &&& ((fb / 128) % 2 == 1) == f.username_flag
            &&& ((fb / 64) % 2 == 1) == f.password_flag
            &&& ((fb / 32) % 2 == 1) == f.will_retain_flag
            &&& spec_qos_from_u8(((fb / 8) % 4) as u8) == Some(f.will_qos)
            &&& ((fb / 4) % 2 == 1) == f.will_flag
            &&& ((fb / 2) % 2 == 1) == f.clean_start_flag
            &&& (fb % 2 == 1) == f.reserved_flag
        }),
{
    let fb = crate::packet_wire::spec_connect_flags_byte(f);
    assert(spec_qos_as_u8(f.will_qos) <= 2);
    assert((fb / 8) % 4 == spec_qos_as_u8(f.will_qos));
}

/// Parsing an encoded subscription option byte recovers every option, with
/// the reserved bits in their two-bit normal form.
proof fn lemma_subscription_options_round_trip(f: TopicFilterModel)
    ensures
        ({
            let b = spec_subscription_options_byte(f);
            &&& 0 <= b < 256
            &&& spec_retain_handling_from_u8(((b / 16) % 4) as u8) == Some(f.retain_handling)
            &&& spec_qos_from_u8((b % 4) as u8) == Some(f.maximum_qos)
            &&& ((b / 4) % 2 == 1) == f.no_local
            &&& ((b / 8) % 2 == 1) == f.retain_as_published
            &&& ((b / 128) % 2 == 1) == (f.reserved_bits.len() > 0 && f.reserved_bits[0])
            &&& ((b / 64) % 2 == 1) == (f.reserved_bits.len() > 1 && f.reserved_bits[1])
        }),
{
    let b = spec_subscription_options_byte(f);
    assert(spec_retain_handling_as_u8(f.retain_handling) <= 2);
    assert(spec_qos_as_u8(f.maximum_qos) <= 2);
    assert((b / 16) % 4 == spec_retain_handling_as_u8(f.retain_handling));
    assert(b % 4 == spec_qos_as_u8(f.maximum_qos));
}

/// Parsing encoded subscription entries laid down at `pos` and running to
/// the end of the body recovers every entry in order, in normal form.
proof fn lemma_filters_round_trip(body: Seq<u8>, pos: int, fs: Seq<TopicFilterModel>)
    requires
        spec_encode_topic_filters(fs) is Ok,
        region_is(body, pos, spec_encode_topic_filters(fs)->Ok_0),
        pos + spec_encode_topic_filters(fs)->Ok_0.len() == body.len(),
    ensures
        spec_parse_topic_filters(body, pos) == Ok::<(Seq<TopicFilterModel>, int),
            crate::decode_error::DecodeError>((
            Seq::new(fs.len(), |i: int| spec_normalize_filter(fs[i])),
            body.len() as int,
        )),
    decreases fs.len(),
{
    if fs.len() == 0 {
        assert(pos == body.len());
        assert(Seq::new(0, |i: int| spec_normalize_filter(fs[i])) =~= Seq::<TopicFilterModel>::empty());
    } else {
        let f0 = fs[0];
        let nb = spec_encode_utf8_string(f0.topic_filter)->Ok_0;
        let ob = spec_subscription_options_byte(f0) as u8;
        let rest_enc = spec_encode_topic_filters(fs.drop_first())->Ok_0;
        assert(spec_encode_topic_filters(fs)->Ok_0 == nb + seq![ob] + rest_enc);
        lemma_region_split(body, pos, nb + seq![ob], rest_enc);
        lemma_region_split(body, pos, nb, seq![ob]);
        lemma_parse_utf8_of_encoding(body, pos, f0.topic_filter);
        let p1 = pos + nb.len();
        lemma_region_byte(body, p1, ob);
        lemma_subscription_options_round_trip(f0);
        let p2 = p1 + 1;
        assert(spec_parse_topic_filter(body, pos) matches Ok(pr) && pr.0 == spec_normalize_filter(f0)
            && pr.1 == p2) by {
            assert(spec_normalize_filter(f0).reserved_bits =~= seq![
                (ob as int / 128) % 2 == 1,
                (ob as int / 64) % 2 == 1,
            ]);
            assert(spec_parse_topic_filter(body, pos)->Ok_0.0 =~= spec_normalize_filter(f0));
        }
        lemma_filters_round_trip(body, p2, fs.drop_first());
        assert(seq![spec_normalize_filter(f0)] + Seq::new(
            fs.drop_first().len(),
            |i: int| spec_normalize_filter(fs.drop_first()[i]),
        ) =~= Seq::new(fs.len(), |i: int| spec_normalize_filter(fs[i])));
    }
}


/// Parsing an encoded CONNECT variable header recovers every field, with an
/// empty property list.
proof fn lemma_connect_vh_round_trip(body: Seq<u8>, v: VariableHeaderModel, fh: FixedHeaderModel)
    requires
        fh.packet_type is CONNECT,
        v.protocol_name is Some && v.protocol_version is Some && v.connect_flags is Some && v.keep_alive is Some,
        spec_encode_variable_header(fh.packet_type, Some(v)) is Ok,
        region_is(body, 0, spec_encode_variable_header(fh.packet_type, Some(v))->Ok_0),
    ensures
        ({
            let vhb = spec_encode_variable_header(fh.packet_type, Some(v))->Ok_0;
            spec_parse_variable_header(body, fh) == Ok::<(Option<VariableHeaderModel>, int),
                crate::decode_error::DecodeError>((
                Some(VariableHeaderModel {
                    protocol_name: v.protocol_name,
                    protocol_version: v.protocol_version,
                    connect_flags: v.connect_flags,
                    keep_alive: v.keep_alive,
                    connect_acknowledge_flags: None,
                    reason_code: None,
                    properties: Seq::<PropertyModel>::empty(),
                    packet_identifier: None,
                    topic_name: None,
                }),
                vhb.len() as int,
            ))
        }),
{
    let name = v.protocol_name->0;
    let nb = spec_encode_utf8_string(name)->Ok_0;
    let ver = v.protocol_version->0;
    let cf = v.connect_flags->0;
    let fb = crate::packet_wire::spec_connect_flags_byte(cf) as u8;
    let ka = match v.keep_alive {
        Some(ka) => ka,
        None => 0u16,
    };
    let vhb = spec_encode_variable_header(fh.packet_type, Some(v))->Ok_0;
    assert(vhb == nb + seq![ver] + seq![fb] + spec_u16_be(ka) + spec_empty_props());
    lemma_region_split(body, 0, nb + seq![ver] + seq![fb] + spec_u16_be(ka), spec_empty_props());
    lemma_region_split(body, 0, nb + seq![ver] + seq![fb], spec_u16_be(ka));
    lemma_region_split(body, 0, nb + seq![ver], seq![fb]);
    lemma_region_split(body, 0, nb, seq![ver]);
    lemma_parse_utf8_of_encoding(body, 0, name);
    let p1 = nb.len() as int;
    lemma_region_byte(body, p1, ver);
    lemma_region_byte(body, p1 + 1, fb);
    lemma_parse_u16_of_encoding(body, p1 + 2, ka);
    lemma_parse_empty_props(body, p1 + 4);
    lemma_connect_flags_round_trip(cf);
    assert(spec_parse_variable_header(body, fh)->Ok_0.0->0 =~= VariableHeaderModel {
        protocol_name: v.protocol_name,
        protocol_version: v.protocol_version,
        connect_flags: v.connect_flags,
        keep_alive: v.keep_alive,
        connect_acknowledge_flags: None,
        reason_code: None,
        properties: Seq::<PropertyModel>::empty(),
        packet_identifier: None,
        topic_name: None,
    });
}

/// Parsing an encoded PUBLISH variable header recovers the topic and, when
/// the quality of service asks for one, the packet identifier.
proof fn lemma_publish_vh_round_trip(body: Seq<u8>, v: VariableHeaderModel, fh: FixedHeaderModel)
    requires
        fh.packet_type is PUBLISH,
        fh.qos_level is Some,
        v.topic_name is Some,
        v.packet_identifier is Some <==> fh.qos_level->0 != QoSLevel::AtMostOnce,
        spec_encode_variable_header(fh.packet_type, Some(v)) is Ok,
        region_is(body, 0, spec_encode_variable_header(fh.packet_type, Some(v))->Ok_0),
    ensures
        ({
            let vhb = spec_encode_variable_header(fh.packet_type, Some(v))->Ok_0;
            spec_parse_variable_header(body, fh) == Ok::<(Option<VariableHeaderModel>, int),
                crate::decode_error::DecodeError>((
                Some(spec_vh_publish(v.packet_identifier, v.topic_name->0, Seq::<PropertyModel>::empty())),
                vhb.len() as int,
            ))
        }),
{
    let topic = v.topic_name->0;
    let tb = spec_encode_utf8_string(topic)->Ok_0;
    let vhb = spec_encode_variable_header(fh.packet_type, Some(v))->Ok_0;
    match v.packet_identifier {
        Some(pid) => {
            assert(vhb == tb + spec_u16_be(pid) + spec_empty_props());
            lemma_region_split(body, 0, tb + spec_u16_be(pid), spec_empty_props());
            lemma_region_split(body, 0, tb, spec_u16_be(pid));
            lemma_parse_utf8_of_encoding(body, 0, topic);
            lemma_parse_u16_of_encoding(body, tb.len() as int, pid);
            lemma_parse_empty_props(body, tb.len() as int + 2);
        },
        None => {
            assert(vhb == tb + spec_empty_props());
            lemma_region_split(body, 0, tb, spec_empty_props());
            lemma_parse_utf8_of_encoding(body, 0, topic);
            lemma_parse_empty_props(body, tb.len() as int);
        },
    }
}

/// Parsing an encoded SUBSCRIBE variable header recovers the identifier.
proof fn lemma_subscribe_vh_round_trip(body: Seq<u8>, v: VariableHeaderModel, fh: FixedHeaderModel)
    requires
        fh.packet_type is SUBSCRIBE,
        v.packet_identifier is Some,
        spec_encode_variable_header(fh.packet_type, Some(v)) is Ok,
        region_is(body, 0, spec_encode_variable_header(fh.packet_type, Some(v))->Ok_0),
    ensures
        ({
            let vhb = spec_encode_variable_header(fh.packet_type, Some(v))->Ok_0;
            spec_parse_variable_header(body, fh) == Ok::<(Option<VariableHeaderModel>, int),
                crate::decode_error::DecodeError>((
                Some(spec_vh_sub_unsub(v.packet_identifier, Seq::<PropertyModel>::empty())),
                vhb.len() as int,
            ))
        }),
{
    let pid = v.packet_identifier->0;
    let vhb = spec_encode_variable_header(fh.packet_type, Some(v))->Ok_0;
    assert(vhb == spec_u16_be(pid) + spec_empty_props());
    lemma_region_split(body, 0, spec_u16_be(pid), spec_empty_props());
    lemma_parse_u16_of_encoding(body, 0, pid);
    lemma_parse_empty_props(body, 2);
}

/// Parsing an encoded DISCONNECT variable header recovers the reason code.
proof fn lemma_disconnect_vh_round_trip(body: Seq<u8>, v: VariableHeaderModel, fh: FixedHeaderModel)
    requires
        fh.packet_type is DISCONNECT,
        v.reason_code matches Some(rc) && spec_reason_round_trips(rc),
        spec_encode_variable_header(fh.packet_type, Some(v)) is Ok,
        region_is(body, 0, spec_encode_variable_header(fh.packet_type, Some(v))->Ok_0),
    ensures
        ({
            let vhb = spec_encode_variable_header(fh.packet_type, Some(v))->Ok_0;
            spec_parse_variable_header(body, fh) == Ok::<(Option<VariableHeaderModel>, int),
                crate::decode_error::DecodeError>((
                Some(VariableHeaderModel {
                    protocol_name: None,
                    protocol_version: None,
                    connect_flags: None,
                    keep_alive: None,
                    connect_acknowledge_flags: None,
                    reason_code: v.reason_code,
                    properties: Seq::<PropertyModel>::empty(),
                    packet_identifier: None,
                    topic_name: None,
                }),
                vhb.len() as int,
            ))
        }),
{
    let rc = v.reason_code->0;
    let rb = spec_reason_as_u8(rc);
    let vhb = spec_encode_variable_header(fh.packet_type, Some(v))->Ok_0;
    assert(vhb == seq![rb] + spec_empty_props());
    lemma_region_split(body, 0, seq![rb], spec_empty_props());
    lemma_region_byte(body, 0, rb);
    lemma_parse_empty_props(body, 1);
}

/// Parsing an encoded CONNECT payload laid down at `pos` recovers the client
/// identifier, the will fields and the credentials the flags announce, with
/// an empty will-property list.
#[verifier::rlimit(60)]
proof fn lemma_connect_payload_round_trip(body: Seq<u8>, pos: int, p: PayloadModel, f: crate::variable_header::ConnectFlags)
    requires
        p.client_id is Some,
        f.will_flag <==> p.will_topic is Some,
        f.will_flag <==> p.will_payload is Some,
        f.will_flag <==> p.will_properties is Some,
        f.username_flag <==> p.username is Some,
        f.password_flag <==> p.password is Some,
        spec_encode_payload(ControlPacketType::CONNECT, Some(f), Some(p)) is Ok,
        region_is(body, pos, spec_encode_payload(ControlPacketType::CONNECT, Some(f), Some(p))->Ok_0),
    ensures
        spec_parse_payload(body, ControlPacketType::CONNECT, Some(f), pos) == Ok::<Option<PayloadModel>,
            crate::decode_error::DecodeError>(Some(PayloadModel {
            client_id: p.client_id,
            will_properties: match p.will_properties {
                Some(_) => Some(Seq::<PropertyModel>::empty()),
                None => None,
            },
            will_topic: p.will_topic,
            will_payload: p.will_payload,
            username: p.username,
            password: p.password,
            topic_filters: None,
            reason_codes: None,
            data: None,
        })),
{
    let cid = p.client_id->0;
    let cidb = spec_encode_utf8_string(cid)->Ok_0;
    let plb = spec_encode_payload(ControlPacketType::CONNECT, Some(f), Some(p))->Ok_0;
    let will_bytes: Seq<u8> = if f.will_flag {
        spec_empty_props() + spec_encode_utf8_string(p.will_topic->0)->Ok_0 + spec_encode_binary(
            p.will_payload->0,
        )->Ok_0
    } else {
        Seq::<u8>::empty()
    };
    let ub: Seq<u8> = if f.username_flag {
        spec_encode_utf8_string(p.username->0)->Ok_0
    } else {
        Seq::<u8>::empty()
    };
    let wb: Seq<u8> = if f.password_flag {
        spec_encode_utf8_string(p.password->0)->Ok_0
    } else {
        Seq::<u8>::empty()
    };
    assert(plb == cidb + will_bytes + ub + wb);
    lemma_region_split(body, pos, cidb + will_bytes + ub, wb);
    lemma_region_split(body, pos, cidb + will_bytes, ub);
    lemma_region_split(body, pos, cidb, will_bytes);
    lemma_parse_utf8_of_encoding(body, pos, cid);
    let p1 = pos + cidb.len() as int;
    let p4 = p1 + will_bytes.len() as int;
    if f.will_flag {
        let wtb = spec_encode_utf8_string(p.will_topic->0)->Ok_0;
        let wplb = spec_encode_binary(p.will_payload->0)->Ok_0;
        assert(will_bytes == spec_empty_props() + wtb + wplb);
        lemma_region_split(body, p1, spec_empty_props() + wtb, wplb);
        lemma_region_split(body, p1, spec_empty_props(), wtb);
        lemma_parse_empty_props(body, p1);
        lemma_parse_utf8_of_encoding(body, p1 + 1, p.will_topic->0);
        lemma_parse_binary_of_encoding(body, p1 + 1 + wtb.len() as int, p.will_payload->0);
    }
    if f.username_flag {
        lemma_parse_utf8_of_encoding(body, p4, p.username->0);
    }
    let p5 = p4 + ub.len() as int;
    if f.password_flag {
        lemma_parse_utf8_of_encoding(body, p5, p.password->0);
    }
}


/// Codec round trip: for every control packet the public constructors can
/// build (the shapes of `spec_wf_constructed`), decoding the encoding yields
/// the packet back, up to the fields the encoder synthesizes: the body
/// length is recomputed, property lists come back empty, a PUBLISH payload
/// is made explicit, and subscription reserved bits are padded to two.
#[verifier::rlimit(100)]
pub proof fn lemma_codec_round_trip(m: ControlPacketModel)
    requires
        spec_wf_constructed(m),
        spec_encode_packet(m) is Ok,
    ensures
        ({
            let enc = spec_encode_packet(m)->Ok_0;
            let rem = spec_encoded_body_len(m);
            spec_parse_packet(enc) == Ok::<(ControlPacketModel, int), crate::decode_error::DecodeError>((
                spec_normalize_packet(m, rem as u64),
                enc.len() as int,
            ))
        }),
{
    let t = m.fixed_header.packet_type;
    let vhb = spec_encode_variable_header(t, m.variable_header)->Ok_0;
    let plb = spec_encode_payload(t, spec_packet_flags(m), m.payload)->Ok_0;
    let rem = vhb.len() as int + plb.len() as int;
    let b = spec_encode_first_byte(m.fixed_header)->Ok_0;
    let fhb = seq![b] + spec_vbi_encode(rem);
    let enc = spec_encode_packet(m)->Ok_0;
    assert(enc == fhb + vhb + plb);
    assert(rem <= VBI_MAX);
    lemma_region_whole(enc, (fhb + vhb) + plb);
    assert((fhb + vhb) + plb =~= fhb + (vhb + plb));
    lemma_region_whole(enc, fhb + (vhb + plb));
    lemma_region_split(enc, 0, fhb, vhb + plb);
    lemma_fixed_header_round_trip(enc, m.fixed_header, rem);
    let p1 = fhb.len() as int;
    let parsed_fh = spec_parse_fixed_header(enc, 0)->Ok_0.0;
    assert(enc.len() - p1 == rem);
    if rem == 0 {
        assert(t is PINGREQ || t is PINGRESP) by {
            if t is CONNECT || t is PUBLISH || t is SUBSCRIBE || t is PUBACK || t is PUBREC || t is PUBREL
                || t is PUBCOMP || t is DISCONNECT {
                assert(vhb.len() > 0);
            }
        }
        assert(spec_parse_packet(enc)->Ok_0.0 =~~= spec_normalize_packet(m, rem as u64));
        assert(spec_parse_packet(enc)->Ok_0.1 == enc.len() as int);
    } else {
        let body = enc.subrange(p1, p1 + rem);
        assert(body == vhb + plb);
        lemma_region_whole(body, vhb + plb);
        lemma_region_split(body, 0, vhb, plb);
        match t {
            ControlPacketType::CONNECT => {
                let v = m.variable_header->0;
                let cf = v.connect_flags->0;
                lemma_connect_vh_round_trip(body, v, m.fixed_header);
                let parsed_vh = spec_parse_variable_header(body, parsed_fh)->Ok_0.0;
                assert(spec_parse_variable_header(body, parsed_fh) == spec_parse_variable_header(
                    body,
                    m.fixed_header,
                )) by {
                    assert(parsed_fh.packet_type == t);
                }
                lemma_connect_payload_round_trip(body, vhb.len() as int, m.payload->0, cf);
                assert(parsed_vh->0.connect_flags == Some(cf));
                assert(spec_parse_packet(enc)->Ok_0.0 =~~= spec_normalize_packet(m, rem as u64));
            },
            ControlPacketType::PUBLISH => {
                let v = m.variable_header->0;
                lemma_publish_vh_round_trip(body, v, m.fixed_header);
                assert(spec_parse_variable_header(body, parsed_fh) == spec_parse_variable_header(
                    body,
                    m.fixed_header,
                )) by {
                    assert(parsed_fh.packet_type == t);
                    assert(parsed_fh.qos_level == m.fixed_header.qos_level);
                }
                let p2 = vhb.len() as int;
                assert(body.subrange(p2, body.len() as int) =~= plb);
                match m.payload {
                    Some(p) => {
                        assert(plb == p.data->0);
                    },
                    None => {
                        assert(plb =~= Seq::<u8>::empty());
                    },
                }
                assert(spec_parse_packet(enc)->Ok_0.0 =~~= spec_normalize_packet(m, rem as u64));
            },
            ControlPacketType::PUBACK | ControlPacketType::PUBREC | ControlPacketType::PUBREL
                | ControlPacketType::PUBCOMP => {
                let v = m.variable_header->0;
                assert(plb =~= Seq::<u8>::empty());
                assert(body =~= vhb);
                lemma_ack_vh_round_trip(body, v, t);
                assert(spec_parse_packet(enc)->Ok_0.0 =~~= spec_normalize_packet(m, rem as u64));
            },
            ControlPacketType::SUBSCRIBE => {
                let v = m.variable_header->0;
                lemma_subscribe_vh_round_trip(body, v, m.fixed_header);
                assert(spec_parse_variable_header(body, parsed_fh) == spec_parse_variable_header(
                    body,
                    m.fixed_header,
                )) by {
                    assert(parsed_fh.packet_type == t);
                }
                let fs = m.payload->0.topic_filters->0;
                lemma_filters_round_trip(body, vhb.len() as int, fs);
                assert(spec_parse_packet(enc)->Ok_0.0 =~~= spec_normalize_packet(m, rem as u64));
            },
            ControlPacketType::DISCONNECT => {
                let v = m.variable_header->0;
                lemma_disconnect_vh_round_trip(body, v, m.fixed_header);
                assert(spec_parse_packet(enc)->Ok_0.0 =~~= spec_normalize_packet(m, rem as u64));
            },
            _ => {
                assert(false);
            },
        }
        assert(spec_parse_packet(enc)->Ok_0.1 == enc.len() as int);
    }
}

} // verus!
