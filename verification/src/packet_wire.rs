//! The packet-level wire format: total specification functions that parse
//! a byte sequence into a packet model and encode a packet model into
//! bytes, field by field, as the executable codec must.

use vstd::prelude::*;
use crate::control_packet::ControlPacketModel;
use crate::decode_error::{DecodeError, ReadError};
use crate::encode_error::EncodeError;
use crate::fixed_header::{ControlPacketType, FixedHeaderModel, spec_packet_type_nibble};
use crate::payload::PayloadModel;
use crate::qos_level::{QoSLevel, spec_qos_as_u8, spec_qos_from_u8};
use crate::reason_code::{ReasonCode, spec_reason_as_u8, spec_reason_from_u8};
use crate::topic::{RetainHandling, TopicFilterModel, spec_retain_handling_as_u8, spec_retain_handling_from_u8};
use crate::variable_header::{ConnectFlags, PropertyModel, VariableHeaderModel};
use crate::wire::{
    VBI_MAX, spec_encode_binary, spec_encode_utf8_string, spec_parse_binary, spec_parse_u16_be, spec_parse_u32_be,
    spec_parse_u8, spec_parse_utf8_string, spec_parse_vbi, spec_u16_be, spec_vbi_encode,
};

verus! {

pub open spec fn b2i(b: bool) -> int {
    if b {
        1int
    } else {
        0int
    }
}

/// Value of a four-bit control-flag vector, first flag in the highest bit.
pub open spec fn spec_flags_nibble(flags: Seq<bool>) -> int {
    b2i(flags[0]) * 8 + b2i(flags[1]) * 4 + b2i(flags[2]) * 2 + b2i(flags[3])
}

/// Value of the PUBLISH flag nibble: dup bit, two qos bits, retain bit.
pub open spec fn spec_publish_nibble(dup: bool, qos: QoSLevel, retain: bool) -> int {
    b2i(dup) * 8 + spec_qos_as_u8(qos) * 2 + b2i(retain)
}

/// CONNECT flag byte, most significant bit first: username, password,
/// will_retain, will_qos (two bits), will, clean_start, reserved.
pub open spec fn spec_connect_flags_byte(f: ConnectFlags) -> int {
    b2i(f.username_flag) * 128 + b2i(f.password_flag) * 64 + b2i(f.will_retain_flag) * 32
        + spec_qos_as_u8(f.will_qos) * 8 + b2i(f.will_flag) * 4 + b2i(f.clean_start_flag) * 2 + b2i(f.reserved_flag)
}

/// Subscription option byte, most significant bit first: two reserved bits,
/// retain handling (two bits), retain-as-published, no-local, maximum qos
/// (two bits).  Missing reserved bits encode as zero.
pub open spec fn spec_subscription_options_byte(f: TopicFilterModel) -> int {
    b2i(f.reserved_bits.len() > 0 && f.reserved_bits[0]) * 128
        + b2i(f.reserved_bits.len() > 1 && f.reserved_bits[1]) * 64
        + spec_retain_handling_as_u8(f.retain_handling) * 16
        + b2i(f.retain_as_published) * 8
        + b2i(f.no_local) * 4
        + spec_qos_as_u8(f.maximum_qos)
}

// ---------------------------------------------------------------------------
// Parsing, byte sequence to packet model.
// ---------------------------------------------------------------------------

/// Fixed header read at `pos`: type nibble, flag nibble, then the body's
/// byte count as a variable-byte integer.
pub open spec fn spec_parse_fixed_header(bytes: Seq<u8>, pos: int) -> Result<(FixedHeaderModel, int), DecodeError> {
    match spec_parse_u8(bytes, pos) {
        Err(c) => Err(DecodeError::PacketType { cause: c }),
        Ok((b, p1)) => {
            let t = crate::fixed_header::spec_packet_type_from_u8((b / 16) as u8)->0;
            let low = b as int % 16;
            if t is PUBLISH {
                let dup = (low / 8) % 2 == 1;
                let qos_raw = (low / 2) % 4;
                let retain = low % 2 == 1;
                match spec_qos_from_u8(qos_raw as u8) {
                    None => Err(DecodeError::QoSLevel { cause: ReadError::InvalidData }),
                    Some(qos) => match spec_parse_vbi(bytes, p1) {
                        Err(c) => Err(DecodeError::RemainingLength { cause: c }),
                        Ok((rem, p2)) => Ok((
                            FixedHeaderModel {
                                packet_type: t,
                                control_flags: None,
                                remaining_length: rem,
                                dup_flag: Some(dup),
                                qos_level: Some(qos),
                                retain: Some(retain),
                            },
                            p2,
                        )),
                    },
                }
            } else {
                let flags = seq![(low / 8) % 2 == 1, (low / 4) % 2 == 1, (low / 2) % 2 == 1, low % 2 == 1];
                match spec_parse_vbi(bytes, p1) {
                    Err(c) => Err(DecodeError::RemainingLength { cause: c }),
                    Ok((rem, p2)) => Ok((
                        FixedHeaderModel {
                            packet_type: t,
                            control_flags: Some(flags),
                            remaining_length: rem,
                            dup_flag: None,
                            qos_level: None,
                            retain: None,
                        },
                        p2,
                    )),
                }
            }
        },
    }
}

/// One property read at `pos`, selected by its identifier.
pub open spec fn spec_parse_property_value(bytes: Seq<u8>, id: u64, pos: int) -> Result<(PropertyModel, int), DecodeError> {
    if id == 0 || id == 11 {
        match spec_parse_vbi(bytes, pos) {
            Err(c) => Err(DecodeError::VariableByteInteger { cause: c }),
            Ok((v, p)) => Ok((PropertyModel::SubscriptionIdentifier(v), p)),
        }
    } else if id == 1 || id == 23 || id == 25 || id == 36 || id == 37 || id == 40 || id == 41 || id == 42 {
        match spec_parse_u8(bytes, pos) {
            Err(c) => Err(DecodeError::Property { cause: c }),
            Ok((v, p)) => Ok((
                if id == 1 {
                    PropertyModel::PayloadFormatIndicator(v)
                } else if id == 23 {
                    PropertyModel::RequestProblemInformation(v)
                } else if id == 25 {
                    PropertyModel::RequestResponseInformation(v)
                } else if id == 36 {
                    PropertyModel::MaximumQoS(v)
                } else if id == 37 {
                    PropertyModel::RetainAvailable(v)
                } else if id == 40 {
                    PropertyModel::WildcardSubscriptionAvailable(v)
                } else if id == 41 {
                    PropertyModel::SubscriptionIdentifierAvailable(v)
                } else {
                    PropertyModel::SharedSubscriptionAvailable(v)
                },
                p,
            )),
        }
    } else if id == 2 || id == 17 || id == 24 || id == 39 {
        match spec_parse_u32_be(bytes, pos) {
            Err(c) => Err(DecodeError::Property { cause: c }),
            Ok((v, p)) => Ok((
                if id == 2 {
                    PropertyModel::MessageExpiryInterval(v)
                } else if id == 17 {
                    PropertyModel::SessionExpiryInterval(v)
                } else if id == 24 {
                    PropertyModel::WillDelayInterval(v)
                } else {
                    PropertyModel::MaximumPacketSize(v)
                },
                p,
            )),
        }
    } else if id == 19 || id == 33 || id == 34 || id == 35 {
        match spec_parse_u16_be(bytes, pos) {
            Err(c) => Err(DecodeError::Property { cause: c }),
            Ok((v, p)) => Ok((
                if id == 19 {
                    PropertyModel::ServerKeepAlive(v)
                } else if id == 33 {
                    PropertyModel::ReceiveMaximum(v)
                } else if id == 34 {
                    PropertyModel::TopicAliasMaximum(v)
                } else {
                    PropertyModel::TopicAlias(v)
                },
                p,
            )),
        }
    } else if id == 3 || id == 8 || id == 18 || id == 21 || id == 26 || id == 28 || id == 31 {
        match spec_parse_utf8_string(bytes, pos) {
            Err(c) => Err(DecodeError::UTF8String { cause: c }),
            Ok((s, p)) => Ok((
                if id == 3 {
                    PropertyModel::ContentType(s)
                } else if id == 8 {
                    PropertyModel::ResponseTopic(s)
                } else if id == 18 {
                    PropertyModel::AssignedClientIdentifier(s)
                } else if id == 21 {
                    PropertyModel::AuthenticationMethod(s)
                } else if id == 26 {
                    PropertyModel::ResponseInformation(s)
                } else if id == 28 {
                    PropertyModel::ServerReference(s)
                } else {
                    PropertyModel::ReasonString(s)
                },
                p,
            )),
        }
    } else if id == 9 || id == 22 {
        match spec_parse_binary(bytes, pos) {
            Err(c) => Err(DecodeError::BinaryData { cause: c }),
            Ok((v, p)) => Ok((
                if id == 9 {
                    PropertyModel::CorrelationData(v)
                } else {
                    PropertyModel::AuthenticationData(v)
                },
                p,
            )),
        }
    } else if id == 38 {
        match spec_parse_utf8_string(bytes, pos) {
            Err(c) => Err(DecodeError::UTF8String { cause: c }),
            Ok((k, p1)) => match spec_parse_utf8_string(bytes, p1) {
                Err(c) => Err(DecodeError::UTF8String { cause: c }),
                Ok((v, p2)) => Ok((PropertyModel::UserProperty(k, v), p2)),
            },
        }
    } else {
        Err(DecodeError::UnknownProperty { cause: ReadError::InvalidData })
    }
}

/// Identifier-value pairs read until exactly `left` bytes are consumed;
/// consuming past the declared count is a length mismatch.
pub open spec fn spec_parse_props_items(bytes: Seq<u8>, pos: int, left: int) -> Result<(Seq<PropertyModel>, int), DecodeError>
    decreases left,
{
    if left <= 0 {
        Ok((Seq::<PropertyModel>::empty(), pos))
    } else {
        match spec_parse_vbi(bytes, pos) {
            Err(c) => Err(DecodeError::VariableByteInteger { cause: c }),
            Ok((id, p1)) => match spec_parse_property_value(bytes, id, p1) {
                Err(e) => Err(e),
                Ok((prop, p2)) => {
                    let consumed = p2 - pos;
                    if consumed <= 0 || consumed > left {
                        Err(DecodeError::PropertyLength { cause: ReadError::InvalidData })
                    } else {
                        match spec_parse_props_items(bytes, p2, left - consumed) {
                            Err(e) => Err(e),
                            Ok((rest, end)) => Ok((seq![prop] + rest, end)),
                        }
                    }
                },
            },
        }
    }
}

/// Property block read at `pos`: a variable-byte byte count, then that many
/// bytes of properties.
pub open spec fn spec_parse_props(bytes: Seq<u8>, pos: int) -> Result<(Seq<PropertyModel>, int), DecodeError> {
    match spec_parse_vbi(bytes, pos) {
        Err(c) => Err(DecodeError::PropertyLength { cause: c }),
        Ok((n, p1)) => spec_parse_props_items(bytes, p1, n as int),
    }
}

/// Packet identifier, then an optional reason code (present when more than
/// one byte follows), then an optional property block (same rule), which is
/// validated and discarded, as for PUBACK, PUBREC, PUBREL and PUBCOMP.
pub open spec fn spec_parse_ack_header(body: Seq<u8>, pos: int) -> Result<(Option<VariableHeaderModel>, int), DecodeError> {
    match spec_parse_u16_be(body, pos) {
        Err(c) => Err(DecodeError::PacketIdentifier { cause: c }),
        Ok((pid, p1)) => {
            if body.len() - p1 > 1 {
                match spec_parse_u8(body, p1) {
                    Err(c) => Err(DecodeError::ReasonCode { cause: c }),
                    Ok((rb, p2)) => match spec_reason_from_u8(rb) {
                        None => Err(DecodeError::ReasonCode { cause: ReadError::InvalidData }),
                        Some(rc) => {
                            if body.len() - p2 > 1 {
                                match spec_parse_props(body, p2) {
                                    Err(e) => Err(e),
                                    Ok((_props, p3)) => Ok((Some(spec_vh_ack(Some(pid), Some(rc))), p3)),
                                }
                            } else {
                                Ok((Some(spec_vh_ack(Some(pid), Some(rc))), p2))
                            }
                        },
                    },
                }
            } else {
                Ok((Some(spec_vh_ack(Some(pid), None)), p1))
            }
        },
    }
}

/// Acknowledgment-shaped variable header: identifier and reason only.
pub open spec fn spec_vh_ack(packet_identifier: Option<u16>, reason_code: Option<ReasonCode>) -> VariableHeaderModel {
    VariableHeaderModel {
        protocol_name: None,
        protocol_version: None,
        connect_flags: None,
        keep_alive: None,
        connect_acknowledge_flags: None,
        reason_code,
        properties: Seq::<PropertyModel>::empty(),
        packet_identifier,
        topic_name: None,
    }
}

/// Variable header of the body, interpreted by packet type; types the server
/// does not read inbound (CONNACK, SUBACK, UNSUBACK, PINGREQ, PINGRESP,
/// RESERVED, AUTH) yield none.
pub open spec fn spec_parse_variable_header(body: Seq<u8>, fh: FixedHeaderModel) -> Result<(Option<VariableHeaderModel>, int), DecodeError> {
    match fh.packet_type {
        ControlPacketType::CONNECT => match spec_parse_utf8_string(body, 0) {
            Err(c) => Err(DecodeError::UTF8String { cause: c }),
            Ok((name, p1)) => match spec_parse_u8(body, p1) {
                Err(c) => Err(DecodeError::ProtocolVersion { cause: c }),
                Ok((ver, p2)) => match spec_parse_u8(body, p2) {
                    Err(c) => Err(DecodeError::UsernameFlag { cause: c }),
                    Ok((fb, p3)) => {
                        let qos_raw = ((fb as int / 8) % 4) as u8;
                        match spec_qos_from_u8(qos_raw) {
                            None => Err(DecodeError::WillQoSFlag { cause: ReadError::InvalidData }),
                            Some(will_qos) => match spec_parse_u16_be(body, p3) {
                                Err(c) => Err(DecodeError::KeepAlive { cause: c }),
                                Ok((ka, p4)) => match spec_parse_props(body, p4) {
                                    Err(e) => Err(e),
                                    Ok((props, p5)) => Ok((
                                        Some(VariableHeaderModel {
                                            protocol_name: Some(name),
                                            protocol_version: Some(ver),
                                            connect_flags: Some(ConnectFlags {
                                                username_flag: (fb as int / 128) % 2 == 1,
                                                password_flag: (fb as int / 64) % 2 == 1,
                                                will_retain_flag: (fb as int / 32) % 2 == 1,
                                                will_qos,
                                                will_flag: (fb as int / 4) % 2 == 1,
                                                clean_start_flag: (fb as int / 2) % 2 == 1,
                                                reserved_flag: fb as int % 2 == 1,
                                            }),
                                            keep_alive: Some(ka),
                                            connect_acknowledge_flags: None,
                                            reason_code: None,
                                            properties: props,
                                            packet_identifier: None,
                                            topic_name: None,
                                        }),
                                        p5,
                                    )),
                                },
                            },
                        }
                    },
                },
            },
        },
        ControlPacketType::PUBLISH => match spec_parse_utf8_string(body, 0) {
            Err(c) => Err(DecodeError::TopicName { cause: c }),
            Ok((topic, p1)) => {
                if fh.qos_level matches Some(q) && q != QoSLevel::AtMostOnce {
                    match spec_parse_u16_be(body, p1) {
                        Err(c) => Err(DecodeError::PacketIdentifier { cause: c }),
                        Ok((pid, p2)) => match spec_parse_props(body, p2) {
                            Err(e) => Err(e),
                            Ok((props, p3)) => Ok((Some(spec_vh_publish(Some(pid), topic, props)), p3)),
                        },
                    }
                } else {
                    match spec_parse_props(body, p1) {
                        Err(e) => Err(e),
                        Ok((props, p2)) => Ok((Some(spec_vh_publish(None, topic, props)), p2)),
                    }
                }
            },
        },
        ControlPacketType::PUBACK => spec_parse_ack_header(body, 0),
        ControlPacketType::PUBREC => spec_parse_ack_header(body, 0),
        ControlPacketType::PUBREL => spec_parse_ack_header(body, 0),
        ControlPacketType::PUBCOMP => spec_parse_ack_header(body, 0),
        ControlPacketType::SUBSCRIBE => match spec_parse_u16_be(body, 0) {
            Err(c) => Err(DecodeError::PacketIdentifier { cause: c }),
            Ok((pid, p1)) => match spec_parse_props(body, p1) {
                Err(e) => Err(e),
                Ok((props, p2)) => Ok((Some(spec_vh_sub_unsub(Some(pid), props)), p2)),
            },
        },
        ControlPacketType::UNSUBSCRIBE => match spec_parse_u16_be(body, 0) {
            Err(c) => Err(DecodeError::PacketIdentifier { cause: c }),
            Ok((pid, p1)) => match spec_parse_props(body, p1) {
                Err(e) => Err(e),
                Ok((props, p2)) => Ok((Some(spec_vh_sub_unsub(Some(pid), props)), p2)),
            },
        },
        ControlPacketType::DISCONNECT => match spec_parse_u8(body, 0) {
            Err(c) => Err(DecodeError::ReasonCode { cause: c }),
            Ok((rb, p1)) => match spec_reason_from_u8(rb) {
                None => Err(DecodeError::ReasonCode { cause: ReadError::InvalidData }),
                Some(rc) => match spec_parse_props(body, p1) {
                    Err(e) => Err(e),
                    Ok((props, p2)) => Ok((
                        Some(VariableHeaderModel {
                            protocol_name: None,
                            protocol_version: None,
                            connect_flags: None,
                            keep_alive: None,
                            connect_acknowledge_flags: None,
                            reason_code: Some(rc),
                            properties: props,
                            packet_identifier: None,
                            topic_name: None,
                        }),
                        p2,
                    )),
                },
            },
        },
        _ => Ok((None, 0)),
    }
}

/// PUBLISH-shaped variable header.
pub open spec fn spec_vh_publish(packet_identifier: Option<u16>, topic: Seq<char>, properties: Seq<PropertyModel>) -> VariableHeaderModel {
    VariableHeaderModel {
        protocol_name: None,
        protocol_version: None,
        connect_flags: None,
        keep_alive: None,
        connect_acknowledge_flags: None,
        reason_code: None,
        properties,
        packet_identifier,
        topic_name: Some(topic),
    }
}

/// SUBSCRIBE/UNSUBSCRIBE-shaped variable header.
pub open spec fn spec_vh_sub_unsub(packet_identifier: Option<u16>, properties: Seq<PropertyModel>) -> VariableHeaderModel {
    VariableHeaderModel {
        protocol_name: None,
        protocol_version: None,
        connect_flags: None,
        keep_alive: None,
        connect_acknowledge_flags: None,
        reason_code: None,
        properties,
        packet_identifier,
        topic_name: None,
    }
}

/// One subscription entry: the filter string, then the option byte.
pub open spec fn spec_parse_topic_filter(body: Seq<u8>, pos: int) -> Result<(TopicFilterModel, int), DecodeError> {
    match spec_parse_utf8_string(body, pos) {
        Err(c) => Err(DecodeError::TopicFilter { cause: c }),
        Ok((name, p1)) => match spec_parse_u8(body, p1) {
            Err(c) => Err(DecodeError::ReservedFlag { cause: c }),
            Ok((b, p2)) => {
                let rh_raw = ((b as int / 16) % 4) as u8;
                match spec_retain_handling_from_u8(rh_raw) {
                    None => Err(DecodeError::RetainHandling {
                        cause: ReadError::ExceededMaxValue { current: rh_raw as u64, max: 2 },
                    }),
                    Some(rh) => {
                        let qos_raw = (b as int % 4) as u8;
                        match spec_qos_from_u8(qos_raw) {
                            None => Err(DecodeError::MaximumQoS {
                                cause: ReadError::ExceededMaxValue { current: qos_raw as u64, max: 2 },
                            }),
                            Some(qos) => Ok((
                                TopicFilterModel {
                                    topic_filter: name,
                                    maximum_qos: qos,
                                    no_local: (b as int / 4) % 2 == 1,
                                    retain_as_published: (b as int / 8) % 2 == 1,
                                    retain_handling: rh,
                                    reserved_bits: seq![(b as int / 128) % 2 == 1, (b as int / 64) % 2 == 1],
                                },
                                p2,
                            )),
                        }
                    },
                }
            },
        },
    }
}

/// Subscription entries until the body is exhausted.
pub open spec fn spec_parse_topic_filters(body: Seq<u8>, pos: int) -> Result<(Seq<TopicFilterModel>, int), DecodeError>
    decreases body.len() - pos,
{
    if pos >= body.len() {
        Ok((Seq::<TopicFilterModel>::empty(), pos))
    } else {
        match spec_parse_topic_filter(body, pos) {
            Err(e) => Err(e),
            Ok((f, p2)) => {
                if p2 <= pos || p2 > body.len() {
                    Err(DecodeError::TopicFilter { cause: ReadError::InvalidData })
                } else {
                    match spec_parse_topic_filters(body, p2) {
                        Err(e) => Err(e),
                        Ok((rest, end)) => Ok((seq![f] + rest, end)),
                    }
                }
            },
        }
    }
}

/// Unsubscribe entries (bare filter strings) until the body is exhausted.
pub open spec fn spec_parse_unsub_filters(body: Seq<u8>, pos: int) -> Result<(Seq<TopicFilterModel>, int), DecodeError>
    decreases body.len() - pos,
{
    if pos >= body.len() {
        Ok((Seq::<TopicFilterModel>::empty(), pos))
    } else {
        match spec_parse_utf8_string(body, pos) {
            Err(c) => Err(DecodeError::TopicFilter { cause: c }),
            Ok((name, p2)) => {
                if p2 <= pos || p2 > body.len() {
                    Err(DecodeError::TopicFilter { cause: ReadError::InvalidData })
                } else {
                    match spec_parse_unsub_filters(body, p2) {
                        Err(e) => Err(e),
                        Ok((rest, end)) => Ok((seq![spec_unsub_filter(name)] + rest, end)),
                    }
                }
            },
        }
    }
}

/// The fixed defaults an unsubscribe entry takes beside its filter string.
pub open spec fn spec_unsub_filter(name: Seq<char>) -> TopicFilterModel {
    TopicFilterModel {
        topic_filter: name,
        maximum_qos: QoSLevel::ExactlyOnce,
        no_local: true,
        retain_as_published: false,
        retain_handling: RetainHandling::DontSendRetainedMessages,
        reserved_bits: Seq::<bool>::empty(),
    }
}

/// Payload of the body, interpreted by packet type; `flags` are the CONNECT
/// flags when the type is CONNECT.
pub open spec fn spec_parse_payload(body: Seq<u8>, t: ControlPacketType, flags: Option<ConnectFlags>, pos: int) -> Result<Option<PayloadModel>, DecodeError> {
    match t {
        ControlPacketType::CONNECT => match spec_parse_utf8_string(body, pos) {
            Err(c) => Err(DecodeError::UTF8String { cause: c }),
            Ok((client_id, p1)) => match flags {
                None => Err(DecodeError::ConnectFlags { cause: ReadError::InvalidData }),
                Some(f) => {
                    let will_part: Result<(Option<Seq<PropertyModel>>, Option<Seq<char>>, Option<Seq<u8>>, int), DecodeError> = if f.will_flag {
                        match spec_parse_props(body, p1) {
                            Err(e) => Err(e),
                            Ok((wp, p2)) => match spec_parse_utf8_string(body, p2) {
                                Err(c) => Err(DecodeError::UTF8String { cause: c }),
                                Ok((wt, p3)) => match spec_parse_binary(body, p3) {
                                    Err(c) => Err(DecodeError::BinaryData { cause: c }),
                                    Ok((wpl, p4)) => Ok((Some(wp), Some(wt), Some(wpl), p4)),
                                },
                            },
                        }
                    } else {
                        Ok((None, None, None, p1))
                    };
                    match will_part {
                        Err(e) => Err(e),
                        Ok((wp, wt, wpl, p4)) => {
                            let user_part: Result<(Option<Seq<char>>, int), DecodeError> = if f.username_flag {
                                match spec_parse_utf8_string(body, p4) {
                                    Err(c) => Err(DecodeError::UTF8String { cause: c }),
                                    Ok((u, p5)) => Ok((Some(u), p5)),
                                }
                            } else {
                                Ok((None, p4))
                            };
                            match user_part {
                                Err(e) => Err(e),
                                Ok((user, p5)) => {
                                    let pass_part: Result<Option<Seq<char>>, DecodeError> = if f.password_flag {
                                        match spec_parse_utf8_string(body, p5) {
                                            Err(c) => Err(DecodeError::UTF8String { cause: c }),
                                            Ok((pw, _p6)) => Ok(Some(pw)),
                                        }
                                    } else {
                                        Ok(None)
                                    };
                                    match pass_part {
                                        Err(e) => Err(e),
                                        Ok(pass) => Ok(Some(PayloadModel {
                                            client_id: Some(client_id),
                                            will_properties: wp,
                                            will_topic: wt,
                                            will_payload: wpl,
                                            username: user,
                                            password: pass,
                                            topic_filters: None,
                                            reason_codes: None,
                                            data: None,
                                        })),
                                    }
                                },
                            }
                        },
                    }
                },
            },
        },
        ControlPacketType::PUBLISH => {
            if 0 <= pos <= body.len() {
                Ok(Some(spec_payload_publish(body.subrange(pos, body.len() as int))))
            } else {
                Ok(Some(spec_payload_publish(Seq::<u8>::empty())))
            }
        },
        ControlPacketType::SUBSCRIBE => match spec_parse_topic_filters(body, pos) {
            Err(e) => Err(e),
            Ok((fs, _end)) => Ok(Some(spec_payload_filters(fs))),
        },
        ControlPacketType::UNSUBSCRIBE => match spec_parse_unsub_filters(body, pos) {
            Err(e) => Err(e),
            Ok((fs, _end)) => Ok(Some(spec_payload_filters(fs))),
        },
        _ => Ok(None),
    }
}

/// PUBLISH-shaped payload: the raw bytes.
pub open spec fn spec_payload_publish(data: Seq<u8>) -> PayloadModel {
    PayloadModel {
        client_id: None,
        will_properties: None,
        will_topic: None,
        will_payload: None,
        username: None,
        password: None,
        topic_filters: None,
        reason_codes: None,
        data: Some(data),
    }
}

/// SUBSCRIBE/UNSUBSCRIBE-shaped payload: the subscription entries.
pub open spec fn spec_payload_filters(fs: Seq<TopicFilterModel>) -> PayloadModel {
    PayloadModel {
        client_id: None,
        will_properties: None,
        will_topic: None,
        will_payload: None,
        username: None,
        password: None,
        topic_filters: Some(fs),
        reason_codes: None,
        data: None,
    }
}

/// A whole packet read from the front of `bytes`: the fixed header, then a
/// body of exactly `remaining_length` bytes.  Bytes past the body are left
/// for the caller.  The returned position is the total byte count consumed.
pub open spec fn spec_parse_packet(bytes: Seq<u8>) -> Result<(ControlPacketModel, int), DecodeError> {
    match spec_parse_fixed_header(bytes, 0) {
        Err(e) => Err(e),
        Ok((fh, p1)) => {
            let rem = fh.remaining_length as int;
            if bytes.len() - p1 < rem {
                Err(DecodeError::VariableHeaderAndPayload {
                    cause: ReadError::NotEnoughData {
                        position: p1 as u64,
                        length: bytes.len() as u64,
                        requested: rem as u64,
                    },
                })
            } else if rem == 0 {
                Ok((ControlPacketModel { fixed_header: fh, variable_header: None, payload: None }, p1))
            } else {
                let body = bytes.subrange(p1, p1 + rem);
                match spec_parse_variable_header(body, fh) {
                    Err(e) => Err(e),
                    Ok((vh, p2)) => {
                        let flags = match vh {
                            Some(v) => v.connect_flags,
                            None => None,
                        };
                        match spec_parse_payload(body, fh.packet_type, flags, p2) {
                            Err(e) => Err(e),
                            Ok(pl) => Ok((
                                ControlPacketModel { fixed_header: fh, variable_header: vh, payload: pl },
                                p1 + rem,
                            )),
                        }
                    },
                }
            }
        },
    }
}

// ---------------------------------------------------------------------------
// Encoding, packet model to byte sequence.
// ---------------------------------------------------------------------------

/// The zero-length property block the encoder emits for every packet.
pub open spec fn spec_empty_props() -> Seq<u8> {
    seq![0u8]
}

/// First byte of the fixed header, or a refusal when the flags the packet
/// type requires are missing.
pub open spec fn spec_encode_first_byte(fh: FixedHeaderModel) -> Result<u8, EncodeError> {
    if fh.packet_type is PUBLISH {
        if fh.dup_flag is Some && fh.qos_level is Some && fh.retain is Some {
            Ok((spec_packet_type_nibble(fh.packet_type) * 16
                + spec_publish_nibble(fh.dup_flag->0, fh.qos_level->0, fh.retain->0)) as u8)
        } else {
            Err(EncodeError::NotEnoughData)
        }
    } else {
        if fh.control_flags matches Some(f) && f.len() == 4 {
            Ok((spec_packet_type_nibble(fh.packet_type) * 16 + spec_flags_nibble(fh.control_flags->0)) as u8)
        } else {
            Err(EncodeError::NotEnoughData)
        }
    }
}

/// Fixed header bytes for a body of `rem` bytes.
pub open spec fn spec_encode_fixed_header(fh: FixedHeaderModel, rem: int) -> Result<Seq<u8>, EncodeError> {
    match spec_encode_first_byte(fh) {
        Err(e) => Err(e),
        Ok(b) => Ok(seq![b] + spec_vbi_encode(rem)),
    }
}

/// Variable-header bytes, by packet type; a missing variable header encodes
/// as nothing, and the property list always encodes as an empty block.
pub open spec fn spec_encode_variable_header(t: ControlPacketType, vh: Option<VariableHeaderModel>) -> Result<Seq<u8>, EncodeError> {
    match vh {
        None => Ok(Seq::<u8>::empty()),
        Some(v) => match t {
            ControlPacketType::CONNECT => {
                if v.protocol_name is Some && v.protocol_version is Some && v.connect_flags is Some {
                    match spec_encode_utf8_string(v.protocol_name->0) {
                        Err(e) => Err(e),
                        Ok(name) => Ok(
                            name + seq![v.protocol_version->0]
                                + seq![spec_connect_flags_byte(v.connect_flags->0) as u8] + spec_u16_be(
                                match v.keep_alive {
                                    Some(ka) => ka,
                                    None => 0u16,
                                },
                            ) + spec_empty_props(),
                        ),
                    }
                } else {
                    Err(EncodeError::NotEnoughData)
                }
            },
            ControlPacketType::CONNACK => match v.connect_acknowledge_flags {
                Some(af) => Ok(
                    seq![b2i(af.session_present) as u8] + match v.reason_code {
                        Some(rc) => seq![spec_reason_as_u8(rc)],
                        None => Seq::<u8>::empty(),
                    } + spec_empty_props(),
                ),
                None => Err(EncodeError::NotEnoughData),
            },
            ControlPacketType::PUBLISH => match v.topic_name {
                Some(topic) => match spec_encode_utf8_string(topic) {
                    Err(e) => Err(e),
                    Ok(tb) => Ok(
                        tb + match v.packet_identifier {
                            Some(pid) => spec_u16_be(pid),
                            None => Seq::<u8>::empty(),
                        } + spec_empty_props(),
                    ),
                },
                None => Err(EncodeError::NotEnoughData),
            },
            ControlPacketType::PUBACK | ControlPacketType::PUBREC | ControlPacketType::PUBREL
                | ControlPacketType::PUBCOMP => match v.packet_identifier {
                Some(pid) => Ok(
                    spec_u16_be(pid) + match v.reason_code {
                        Some(rc) => seq![spec_reason_as_u8(rc)],
                        None => Seq::<u8>::empty(),
                    } + spec_empty_props(),
                ),
                None => Err(EncodeError::NotEnoughData),
            },
            ControlPacketType::SUBSCRIBE | ControlPacketType::UNSUBSCRIBE | ControlPacketType::SUBACK
                | ControlPacketType::UNSUBACK => match v.packet_identifier {
                Some(pid) => Ok(spec_u16_be(pid) + spec_empty_props()),
                None => Err(EncodeError::NotEnoughData),
            },
            ControlPacketType::DISCONNECT => match v.reason_code {
                Some(rc) => Ok(seq![spec_reason_as_u8(rc)] + spec_empty_props()),
                None => Err(EncodeError::NotEnoughData),
            },
            _ => Ok(Seq::<u8>::empty()),
        },
    }
}

/// Bytes of the subscription entries of a SUBSCRIBE payload.
pub open spec fn spec_encode_topic_filters(fs: Seq<TopicFilterModel>) -> Result<Seq<u8>, EncodeError>
    decreases fs.len(),
{
    if fs.len() == 0 {
        Ok(Seq::<u8>::empty())
    } else {
        match spec_encode_utf8_string(fs[0].topic_filter) {
            Err(e) => Err(e),
            Ok(nb) => match spec_encode_topic_filters(fs.drop_first()) {
                Err(e) => Err(e),
                Ok(rest) => Ok(nb + seq![spec_subscription_options_byte(fs[0]) as u8] + rest),
            },
        }
    }
}

/// Bytes of the filter strings of an UNSUBSCRIBE payload.
pub open spec fn spec_encode_unsub_filters(fs: Seq<TopicFilterModel>) -> Result<Seq<u8>, EncodeError>
    decreases fs.len(),
{
    if fs.len() == 0 {
        Ok(Seq::<u8>::empty())
    } else {
        match spec_encode_utf8_string(fs[0].topic_filter) {
            Err(e) => Err(e),
            Ok(nb) => match spec_encode_unsub_filters(fs.drop_first()) {
                Err(e) => Err(e),
                Ok(rest) => Ok(nb + rest),
            },
        }
    }
}

/// Reason-code bytes of a SUBACK or UNSUBACK payload, in request order.
pub open spec fn spec_encode_reason_codes(rs: Seq<ReasonCode>) -> Seq<u8> {
    Seq::new(rs.len(), |i: int| spec_reason_as_u8(rs[i]))
}

/// Payload bytes, by packet type; a CONNECT without a client identifier gets
/// an empty one, and will properties encode as an empty block.
pub open spec fn spec_encode_payload(t: ControlPacketType, flags: Option<ConnectFlags>, pl: Option<PayloadModel>) -> Result<Seq<u8>, EncodeError> {
    match pl {
        None => Ok(Seq::<u8>::empty()),
        Some(p) => match t {
            ControlPacketType::CONNECT => {
                match spec_encode_utf8_string(
                    match p.client_id {
                        Some(s) => s,
                        None => Seq::<char>::empty(),
                    },
                ) {
                    Err(e) => Err(e),
                    Ok(cid) => {
                        let f = match flags {
                            Some(f) => f,
                            None => ConnectFlags {
                                username_flag: false,
                                password_flag: false,
                                will_retain_flag: false,
                                will_qos: QoSLevel::AtMostOnce,
                                will_flag: false,
                                clean_start_flag: false,
                                reserved_flag: false,
                            },
                        };
                        let will_part: Result<Seq<u8>, EncodeError> = if f.will_flag {
                            if p.will_topic is Some && p.will_payload is Some {
                                match spec_encode_utf8_string(p.will_topic->0) {
                                    Err(e) => Err(e),
                                    Ok(wt) => match spec_encode_binary(p.will_payload->0) {
                                        Err(e) => Err(e),
                                        Ok(wb) => Ok(spec_empty_props() + wt + wb),
                                    },
                                }
                            } else {
                                Err(EncodeError::NotEnoughData)
                            }
                        } else {
                            Ok(Seq::<u8>::empty())
                        };
                        match will_part {
                            Err(e) => Err(e),
                            Ok(will_bytes) => {
                                let user_part: Result<Seq<u8>, EncodeError> = if f.username_flag {
                                    match p.username {
                                        Some(u) => spec_encode_utf8_string(u),
                                        None => Err(EncodeError::NotEnoughData),
                                    }
                                } else {
                                    Ok(Seq::<u8>::empty())
                                };
                                match user_part {
                                    Err(e) => Err(e),
                                    Ok(ub) => {
                                        let pass_part: Result<Seq<u8>, EncodeError> = if f.password_flag {
                                            match p.password {
                                                Some(w) => spec_encode_utf8_string(w),
                                                None => Err(EncodeError::NotEnoughData),
                                            }
                                        } else {
                                            Ok(Seq::<u8>::empty())
                                        };
                                        match pass_part {
                                            Err(e) => Err(e),
                                            Ok(wb) => Ok(cid + will_bytes + ub + wb),
                                        }
                                    },
                                }
                            },
                        }
                    },
                }
            },
            ControlPacketType::PUBLISH => match p.data {
                Some(d) => Ok(d),
                None => Err(EncodeError::NotEnoughData),
            },
            ControlPacketType::SUBSCRIBE => match p.topic_filters {
                Some(fs) => spec_encode_topic_filters(fs),
                None => Err(EncodeError::NotEnoughData),
            },
            ControlPacketType::UNSUBSCRIBE => match p.topic_filters {
                Some(fs) => spec_encode_unsub_filters(fs),
                None => Err(EncodeError::NotEnoughData),
            },
            ControlPacketType::SUBACK | ControlPacketType::UNSUBACK => match p.reason_codes {
                Some(rs) => Ok(spec_encode_reason_codes(rs)),
                None => Err(EncodeError::NotEnoughData),
            },
            _ => Ok(Seq::<u8>::empty()),
        },
    }
}

/// The CONNECT flags of a packet model, when present.
pub open spec fn spec_packet_flags(m: ControlPacketModel) -> Option<ConnectFlags> {
    match m.variable_header {
        Some(v) => v.connect_flags,
        None => None,
    }
}

/// Bytes of a whole packet: payload and variable header are sized first,
/// the fixed header written with the computed body length.
pub open spec fn spec_encode_packet(m: ControlPacketModel) -> Result<Seq<u8>, EncodeError> {
    match spec_encode_payload(m.fixed_header.packet_type, spec_packet_flags(m), m.payload) {
        Err(e) => Err(e),
        Ok(pl) => match spec_encode_variable_header(m.fixed_header.packet_type, m.variable_header) {
            Err(e) => Err(e),
            Ok(vh) => {
                let rem = vh.len() + pl.len();
                if rem > VBI_MAX {
                    Err(EncodeError::ExceededMaxLength)
                } else {
                    match spec_encode_fixed_header(m.fixed_header, rem as int) {
                        Err(e) => Err(e),
                        Ok(fhb) => Ok(fhb + vh + pl),
                    }
                }
            },
        },
    }
}

} // verus!
