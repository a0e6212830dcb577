//! The executable decoder: from bytes to packets, verified to agree with
//! the parsing specification on every input.

use vstd::prelude::*;
use crate::control_packet::ControlPacket;
use crate::decode_error::{DecodeError, ReadError};
use crate::encoder::spec_opt_vh_model;
use crate::fixed_header::{ControlPacketType, FixedHeader};
use crate::packet_wire::{
    spec_parse_fixed_header, spec_parse_packet, spec_parse_payload, spec_parse_property_value, spec_parse_props,
    spec_parse_props_items, spec_parse_topic_filter, spec_parse_topic_filters, spec_parse_unsub_filters,
    spec_parse_variable_header,
};
use crate::payload::Payload;
use crate::qos_level::QoSLevel;
use crate::reason_code::ReasonCode;
use crate::topic::{RetainHandling, TopicFilter};
use crate::variable_header::{ConnectFlags, Property, VariableHeader};
use crate::wire::{copy_range, decode_variable_byte_integer, read_u16_be, read_u32_be, read_u8, read_utf8_string, read_binary_data};

verus! {

/// Decoder for the fixed header of a packet.
pub struct FixedHeaderDecoder {}

impl FixedHeaderDecoder {
    pub fn new() -> Self {
        FixedHeaderDecoder {}
    }

    /// Read a fixed header from `buffer` at `pos`: the first byte's top
    /// nibble is the packet type, its bottom nibble the flags, then the
    /// body's byte count follows as a variable-byte integer.
    pub fn decode(&self, buffer: &Vec<u8>, pos: usize) -> (r: Result<(FixedHeader, usize), DecodeError>)
        ensures
            match r {
                Ok(v) => spec_parse_fixed_header(buffer@, pos as int) matches Ok(pr) && pr.0 == v.0@ && pr.1 == v.1 as int
                    && v.1 <= buffer@.len(),
                Err(e) => spec_parse_fixed_header(buffer@, pos as int) == Err::<(crate::fixed_header::FixedHeaderModel, int), DecodeError>(e),
            },
    {
        let (b, p1) = match read_u8(buffer, pos) {
            Ok(v) => v,
            Err(c) => {
                return Err(DecodeError::PacketType { cause: c });
            },
        };
        let t = match ControlPacketType::from_u8(b / 16) {
            Some(t) => t,
            None => {
                proof {
                    assert(false);
                }
                return Err(DecodeError::PacketType { cause: ReadError::InvalidData });
            },
        };
        let low: u8 = b % 16;
        match t {
            ControlPacketType::PUBLISH => {
                let dup = (low / 8) % 2 == 1;
                let qos_raw = (low / 2) % 4;
                let retain = low % 2 == 1;
                let qos = match QoSLevel::from_u8(qos_raw) {
                    Some(q) => q,
                    None => {
                        return Err(DecodeError::QoSLevel { cause: ReadError::InvalidData });
                    },
                };
                match decode_variable_byte_integer(buffer, p1) {
                    Ok((rem, p2)) => {
                        let r = FixedHeader::from_publish(dup, qos, retain, rem);
                        Ok((r, p2))
                    },
                    Err(c) => Err(DecodeError::RemainingLength { cause: c }),
                }
            },
            _ => {
                let flags: Vec<bool> = vec![(low / 8) % 2 == 1, (low / 4) % 2 == 1, (low / 2) % 2 == 1, low % 2 == 1];
                match decode_variable_byte_integer(buffer, p1) {
                    Ok((rem, p2)) => {
                        proof {
                            assert(flags@ =~= seq![
                                (low as int / 8) % 2 == 1,
                                (low as int / 4) % 2 == 1,
                                (low as int / 2) % 2 == 1,
                                low as int % 2 == 1,
                            ]);
                        }
                        let r = FixedHeader::new(t, flags, rem);
                        Ok((r, p2))
                    },
                    Err(c) => Err(DecodeError::RemainingLength { cause: c }),
                }
            },
        }
    }
}

/// One property read at `pos`, selected by its identifier.
fn decode_property_value(body: &Vec<u8>, id: u64, pos: usize) -> (r: Result<(Property, usize), DecodeError>)
    ensures
        match r {
            Ok(v) => spec_parse_property_value(body@, id, pos as int) matches Ok(pr) && pr.0 == v.0@ && pr.1 == v.1 as int
                && pos < v.1 <= body@.len(),
            Err(e) => spec_parse_property_value(body@, id, pos as int) == Err::<(crate::variable_header::PropertyModel, int), DecodeError>(e),
        },
{
    if id == 0 || id == 11 {
        match decode_variable_byte_integer(body, pos) {
            Ok((v, p)) => Ok((Property::SubscriptionIdentifier(v), p)),
            Err(c) => Err(DecodeError::VariableByteInteger { cause: c }),
        }
    } else if id == 1 || id == 23 || id == 25 || id == 36 || id == 37 || id == 40 || id == 41 || id == 42 {
        match read_u8(body, pos) {
            Err(c) => Err(DecodeError::Property { cause: c }),
            Ok((v, p)) => Ok((
                if id == 1 {
                    Property::PayloadFormatIndicator(v)
                } else if id == 23 {
                    Property::RequestProblemInformation(v)
                } else if id == 25 {
                    Property::RequestResponseInformation(v)
                } else if id == 36 {
                    Property::MaximumQoS(v)
                } else if id == 37 {
                    Property::RetainAvailable(v)
                } else if id == 40 {
                    Property::WildcardSubscriptionAvailable(v)
                } else if id == 41 {
                    Property::SubscriptionIdentifierAvailable(v)
                } else {
                    Property::SharedSubscriptionAvailable(v)
                },
                p,
            )),
        }
    } else if id == 2 || id == 17 || id == 24 || id == 39 {
        match read_u32_be(body, pos) {
            Err(c) => Err(DecodeError::Property { cause: c }),
            Ok((v, p)) => Ok((
                if id == 2 {
                    Property::MessageExpiryInterval(v)
                } else if id == 17 {
                    Property::SessionExpiryInterval(v)
                } else if id == 24 {
                    Property::WillDelayInterval(v)
                } else {
                    Property::MaximumPacketSize(v)
                },
                p,
            )),
        }
    } else if id == 19 || id == 33 || id == 34 || id == 35 {
        match read_u16_be(body, pos) {
            Err(c) => Err(DecodeError::Property { cause: c }),
            Ok((v, p)) => Ok((
                if id == 19 {
                    Property::ServerKeepAlive(v)
                } else if id == 33 {
                    Property::ReceiveMaximum(v)
                } else if id == 34 {
                    Property::TopicAliasMaximum(v)
                } else {
                    Property::TopicAlias(v)
                },
                p,
            )),
        }
    } else if id == 3 || id == 8 || id == 18 || id == 21 || id == 26 || id == 28 || id == 31 {
        match read_utf8_string(body, pos) {
            Err(c) => Err(DecodeError::UTF8String { cause: c }),
            Ok((s, p)) => Ok((
                if id == 3 {
                    Property::ContentType(s)
                } else if id == 8 {
                    Property::ResponseTopic(s)
                } else if id == 18 {
                    Property::AssignedClientIdentifier(s)
                } else if id == 21 {
                    Property::AuthenticationMethod(s)
                } else if id == 26 {
                    Property::ResponseInformation(s)
                } else if id == 28 {
                    Property::ServerReference(s)
                } else {
                    Property::ReasonString(s)
                },
                p,
            )),
        }
    } else if id == 9 || id == 22 {
        match read_binary_data(body, pos) {
            Err(c) => Err(DecodeError::BinaryData { cause: c }),
            Ok((v, p)) => Ok((
                if id == 9 {
                    Property::CorrelationData(v)
                } else {
                    Property::AuthenticationData(v)
                },
                p,
            )),
        }
    } else if id == 38 {
        match read_utf8_string(body, pos) {
            Err(c) => Err(DecodeError::UTF8String { cause: c }),
            Ok((k, p1)) => match read_utf8_string(body, p1) {
                Err(c) => Err(DecodeError::UTF8String { cause: c }),
                Ok((v, p2)) => Ok((Property::UserProperty(k, v), p2)),
            },
        }
    } else {
        Err(DecodeError::UnknownProperty { cause: ReadError::InvalidData })
    }
}

/// Properties read until exactly `left` bytes are consumed, appended to
/// `acc`.  On an error, entries already read stay in `acc`; the caller
/// discards them.
fn decode_props_items(body: &Vec<u8>, pos: usize, left: u64, acc: &mut Vec<Property>) -> (r: Result<usize, DecodeError>)
    requires
        pos <= body@.len(),
    ensures
        match r {
            Ok(end) => spec_parse_props_items(body@, pos as int, left as int) matches Ok(pr) && pr.1 == end as int
                && end <= body@.len()
                && final(acc)@.len() == old(acc)@.len() + pr.0.len()
                && (forall|j: int| 0 <= j < old(acc)@.len() ==> final(acc)@[j] == old(acc)@[j])
                && (forall|j: int| 0 <= j < pr.0.len() ==> #[trigger] final(acc)@[old(acc)@.len() + j]@ == pr.0[j]),
            Err(e) => spec_parse_props_items(body@, pos as int, left as int)
                == Err::<(Seq<crate::variable_header::PropertyModel>, int), DecodeError>(e),
        },
    decreases left,
{
    if left == 0 {
        return Ok(pos);
    }
    let (id, p1) = match decode_variable_byte_integer(body, pos) {
        Ok(v) => v,
        Err(c) => {
            return Err(DecodeError::VariableByteInteger { cause: c });
        },
    };
    let (prop, p2) = match decode_property_value(body, id, p1) {
        Ok(v) => v,
        Err(e) => {
            return Err(e);
        },
    };
    let consumed: usize = p2 - pos;
    if consumed == 0 || consumed as u64 > left {
        return Err(DecodeError::PropertyLength { cause: ReadError::InvalidData });
    }
    let ghost prop_model = prop@;
    acc.push(prop);
    let ghost mid = acc@;
    match decode_props_items(body, p2, left - consumed as u64, acc) {
        Ok(end) => {
            proof {
                let whole = spec_parse_props_items(body@, pos as int, left as int)->Ok_0.0;
                let rest = spec_parse_props_items(body@, p2 as int, left - consumed as int)->Ok_0.0;
                assert(whole == seq![prop_model] + rest);
                assert forall|j: int| 0 <= j < whole.len() implies #[trigger] acc@[old(acc)@.len() + j]@
                    == whole[j] by {
                    if j == 0 {
                        assert(acc@[mid.len() - 1] == mid[mid.len() - 1]);
                    } else {
                        assert(acc@[mid.len() + (j - 1)]@ == rest[j - 1]);
                    }
                }
            }
            Ok(end)
        },
        Err(e) => Err(e),
    }
}

/// A property block: a variable-byte byte count, then that many bytes of
/// identifier-value pairs.
fn decode_props(body: &Vec<u8>, pos: usize) -> (r: Result<(Vec<Property>, usize), DecodeError>)
    requires
        pos <= body@.len(),
    ensures
        match r {
            Ok(v) => spec_parse_props(body@, pos as int) matches Ok(pr) && pr.1 == v.1 as int
                && v.1 <= body@.len() && v.0@.len() == pr.0.len()
                && (forall|j: int| 0 <= j < pr.0.len() ==> #[trigger] v.0@[j]@ == pr.0[j]),
            Err(e) => spec_parse_props(body@, pos as int)
                == Err::<(Seq<crate::variable_header::PropertyModel>, int), DecodeError>(e),
        },
{
    let (n, p1) = match decode_variable_byte_integer(body, pos) {
        Ok(v) => v,
        Err(c) => {
            return Err(DecodeError::PropertyLength { cause: c });
        },
    };
    let mut props: Vec<Property> = Vec::new();
    match decode_props_items(body, p1, n, &mut props) {
        Ok(end) => {
            proof {
                let items = spec_parse_props_items(body@, p1 as int, n as int)->Ok_0.0;
                assert forall|j: int| 0 <= j < items.len() implies #[trigger] props@[j]@ == items[j] by {
                    assert(props@[0 + j]@ == items[j]);
                }
            }
            Ok((props, end))
        },
        Err(e) => Err(e),
    }
}

/// Decoder for the variable header, driven by the fixed header.
pub struct VariableHeaderDecoder {}

impl VariableHeaderDecoder {
    pub fn new() -> Self {
        VariableHeaderDecoder {}
    }

    /// Read the variable header of `body` as the packet type directs; packet
    /// types the server does not read inbound yield none.
    pub fn decode_with_header(&self, fixed_header: &FixedHeader, body: &Vec<u8>) -> (r: Result<(Option<VariableHeader>, usize), DecodeError>)
        ensures
            match r {
                Ok(v) => spec_parse_variable_header(body@, fixed_header@) matches Ok(pr)
                    && pr.0 == spec_opt_vh_model(v.0) && pr.1 == v.1 as int && v.1 <= body@.len(),
                Err(e) => spec_parse_variable_header(body@, fixed_header@)
                    == Err::<(Option<crate::variable_header::VariableHeaderModel>, int), DecodeError>(e),
            },
    {
        match fixed_header.packet_type {
            ControlPacketType::CONNECT => {
                let (name, p1) = match read_utf8_string(body, 0) {
                    Ok(v) => v,
                    Err(c) => {
                        return Err(DecodeError::UTF8String { cause: c });
                    },
                };
                let (ver, p2) = match read_u8(body, p1) {
                    Ok(v) => v,
                    Err(c) => {
                        return Err(DecodeError::ProtocolVersion { cause: c });
                    },
                };
                let (fb, p3) = match read_u8(body, p2) {
                    Ok(v) => v,
                    Err(c) => {
                        return Err(DecodeError::UsernameFlag { cause: c });
                    },
                };
                let will_qos = match QoSLevel::from_u8((fb / 8) % 4) {
                    Some(q) => q,
                    None => {
                        return Err(DecodeError::WillQoSFlag { cause: ReadError::InvalidData });
                    },
                };
                let (ka, p4) = match read_u16_be(body, p3) {
                    Ok(v) => v,
                    Err(c) => {
                        return Err(DecodeError::KeepAlive { cause: c });
                    },
                };
                let (props, p5) = match decode_props(body, p4) {
                    Ok(v) => v,
                    Err(e) => {
                        return Err(e);
                    },
                };
                let flags = ConnectFlags {
                    username_flag: (fb / 128) % 2 == 1,
                    password_flag: (fb / 64) % 2 == 1,
                    will_retain_flag: (fb / 32) % 2 == 1,
                    will_qos,
                    will_flag: (fb / 4) % 2 == 1,
                    clean_start_flag: (fb / 2) % 2 == 1,
                    reserved_flag: fb % 2 == 1,
                };
                let vh = VariableHeader::from_connect(Some(name), Some(ver), Some(flags), Some(ka), props);
                proof {
                    let pr = spec_parse_variable_header(body@, fixed_header@)->Ok_0;
                    assert(vh@.properties =~= pr.0->0.properties);
                    assert(vh@ =~~= pr.0->0);
                }
                Ok((Some(vh), p5))
            },
            ControlPacketType::PUBLISH => {
                let (topic, p1) = match read_utf8_string(body, 0) {
                    Ok(v) => v,
                    Err(c) => {
                        return Err(DecodeError::TopicName { cause: c });
                    },
                };
                let read_pid = match fixed_header.qos_level {
                    Some(q) => !matches!(q, QoSLevel::AtMostOnce),
                    None => false,
                };
                if read_pid {
                    let (pid, p2) = match read_u16_be(body, p1) {
                        Ok(v) => v,
                        Err(c) => {
                            return Err(DecodeError::PacketIdentifier { cause: c });
                        },
                    };
                    let (props, p3) = match decode_props(body, p2) {
                        Ok(v) => v,
                        Err(e) => {
                            return Err(e);
                        },
                    };
                    let vh = VariableHeader::from_publish(Some(pid), Some(topic), props);
                    proof {
                        let pr = spec_parse_variable_header(body@, fixed_header@)->Ok_0;
                        assert(vh@.properties =~= pr.0->0.properties);
                        assert(vh@ =~~= pr.0->0);
                    }
                    Ok((Some(vh), p3))
                } else {
                    let (props, p2) = match decode_props(body, p1) {
                        Ok(v) => v,
                        Err(e) => {
                            return Err(e);
                        },
                    };
                    let vh = VariableHeader::from_publish(None, Some(topic), props);
                    proof {
                        let pr = spec_parse_variable_header(body@, fixed_header@)->Ok_0;
                        assert(vh@.properties =~= pr.0->0.properties);
                        assert(vh@ =~~= pr.0->0);
                    }
                    Ok((Some(vh), p2))
                }
            },
            ControlPacketType::PUBACK | ControlPacketType::PUBREC | ControlPacketType::PUBREL
                | ControlPacketType::PUBCOMP => {
                let (pid, p1) = match read_u16_be(body, 0) {
                    Ok(v) => v,
                    Err(c) => {
                        return Err(DecodeError::PacketIdentifier { cause: c });
                    },
                };
                if body.len() - p1 > 1 {
                    let (rb, p2) = match read_u8(body, p1) {
                        Ok(v) => v,
                        Err(c) => {
                            return Err(DecodeError::ReasonCode { cause: c });
                        },
                    };
                    let rc = match ReasonCode::from_u8(rb) {
                        Some(rc) => rc,
                        None => {
                            return Err(DecodeError::ReasonCode { cause: ReadError::InvalidData });
                        },
                    };
                    if body.len() - p2 > 1 {
                        let (_props, p3) = match decode_props(body, p2) {
                            Ok(v) => v,
                            Err(e) => {
                                return Err(e);
                            },
                        };
                        let vh = VariableHeader::from_pub_ack_rel_comp(Some(pid), Some(rc), Vec::new());
                        proof {
                            let pr = spec_parse_variable_header(body@, fixed_header@)->Ok_0;
                            assert(vh@.properties =~= pr.0->0.properties);
                            assert(vh@ =~~= pr.0->0);
                        }
                        Ok((Some(vh), p3))
                    } else {
                        let vh = VariableHeader::from_pub_ack_rel_comp(Some(pid), Some(rc), Vec::new());
                        proof {
                            let pr = spec_parse_variable_header(body@, fixed_header@)->Ok_0;
                            assert(vh@.properties =~= pr.0->0.properties);
                            assert(vh@ =~~= pr.0->0);
                        }
                        Ok((Some(vh), p2))
                    }
                } else {
                    let vh = VariableHeader::from_pub_ack_rel_comp(Some(pid), None, Vec::new());
                    proof {
                        let pr = spec_parse_variable_header(body@, fixed_header@)->Ok_0;
                        assert(vh@.properties =~= pr.0->0.properties);
                        assert(vh@ =~~= pr.0->0);
                    }
                    Ok((Some(vh), p1))
                }
            },
            ControlPacketType::SUBSCRIBE | ControlPacketType::UNSUBSCRIBE => {
                let (pid, p1) = match read_u16_be(body, 0) {
                    Ok(v) => v,
                    Err(c) => {
                        return Err(DecodeError::PacketIdentifier { cause: c });
                    },
                };
                let (props, p2) = match decode_props(body, p1) {
                    Ok(v) => v,
                    Err(e) => {
                        return Err(e);
                    },
                };
                let vh = VariableHeader::from_sub_unsub(Some(pid), props);
                proof {
                    let pr = spec_parse_variable_header(body@, fixed_header@)->Ok_0;
                    assert(vh@.properties =~= pr.0->0.properties);
                    assert(vh@ =~~= pr.0->0);
                }
                Ok((Some(vh), p2))
            },
            ControlPacketType::DISCONNECT => {
                let (rb, p1) = match read_u8(body, 0) {
                    Ok(v) => v,
                    Err(c) => {
                        return Err(DecodeError::ReasonCode { cause: c });
                    },
                };
                let rc = match ReasonCode::from_u8(rb) {
                    Some(rc) => rc,
                    None => {
                        return Err(DecodeError::ReasonCode { cause: ReadError::InvalidData });
                    },
                };
                let (props, p2) = match decode_props(body, p1) {
                    Ok(v) => v,
                    Err(e) => {
                        return Err(e);
                    },
                };
                let vh = VariableHeader::from_disconnect(rc, props);
                proof {
                    let pr = spec_parse_variable_header(body@, fixed_header@)->Ok_0;
                    assert(vh@.properties =~= pr.0->0.properties);
                    assert(vh@ =~~= pr.0->0);
                }
                Ok((Some(vh), p2))
            },
            _ => Ok((None, 0)),
        }
    }
}

/// One subscription entry: the filter string, then the option byte.
fn decode_topic_filter(body: &Vec<u8>, pos: usize) -> (r: Result<(TopicFilter, usize), DecodeError>)
    ensures
        match r {
            Ok(v) => spec_parse_topic_filter(body@, pos as int) matches Ok(pr) && pr.0 == v.0@ && pr.1 == v.1 as int
                && v.1 <= body@.len(),
            Err(e) => spec_parse_topic_filter(body@, pos as int)
                == Err::<(crate::topic::TopicFilterModel, int), DecodeError>(e),
        },
{
    let (name, p1) = match read_utf8_string(body, pos) {
        Ok(v) => v,
        Err(c) => {
            return Err(DecodeError::TopicFilter { cause: c });
        },
    };
    let (b, p2) = match read_u8(body, p1) {
        Ok(v) => v,
        Err(c) => {
            return Err(DecodeError::ReservedFlag { cause: c });
        },
    };
    let rh = match RetainHandling::from_u8((b / 16) % 4) {
        Some(rh) => rh,
        None => {
            return Err(DecodeError::RetainHandling {
                cause: ReadError::ExceededMaxValue { current: ((b / 16) % 4) as u64, max: 2 },
            });
        },
    };
    let qos = match QoSLevel::from_u8(b % 4) {
        Some(q) => q,
        None => {
            return Err(DecodeError::MaximumQoS {
                cause: ReadError::ExceededMaxValue { current: (b % 4) as u64, max: 2 },
            });
        },
    };
    let reserved: Vec<bool> = vec![(b / 128) % 2 == 1, (b / 64) % 2 == 1];
    let f = TopicFilter::from_subscribe(name, qos, (b / 4) % 2 == 1, (b / 8) % 2 == 1, rh, reserved);
    proof {
        let pr = spec_parse_topic_filter(body@, pos as int)->Ok_0;
        assert(f@.reserved_bits =~= pr.0.reserved_bits);
        assert(f@ =~~= pr.0);
    }
    Ok((f, p2))
}

/// Subscription entries until the body is exhausted, appended to `acc`.
/// On an error, entries already read stay in `acc`; the caller discards them.
fn decode_topic_filters(body: &Vec<u8>, pos: usize, acc: &mut Vec<TopicFilter>) -> (r: Result<(), DecodeError>)
    requires
        pos <= body@.len(),
    ensures
        match r {
            Ok(()) => spec_parse_topic_filters(body@, pos as int) matches Ok(pr)
                && final(acc)@.len() == old(acc)@.len() + pr.0.len()
                && (forall|j: int| 0 <= j < old(acc)@.len() ==> final(acc)@[j] == old(acc)@[j])
                && (forall|j: int| 0 <= j < pr.0.len() ==> #[trigger] final(acc)@[old(acc)@.len() + j]@ == pr.0[j]),
            Err(e) => spec_parse_topic_filters(body@, pos as int)
                == Err::<(Seq<crate::topic::TopicFilterModel>, int), DecodeError>(e),
        },
    decreases body@.len() - pos,
{
    if pos >= body.len() {
        return Ok(());
    }
    let (f, p2) = match decode_topic_filter(body, pos) {
        Ok(v) => v,
        Err(e) => {
            return Err(e);
        },
    };
    if p2 <= pos || p2 > body.len() {
        return Err(DecodeError::TopicFilter { cause: ReadError::InvalidData });
    }
    let ghost f_model = f@;
    acc.push(f);
    let ghost mid = acc@;
    match decode_topic_filters(body, p2, acc) {
        Ok(()) => {
            proof {
                let whole = spec_parse_topic_filters(body@, pos as int)->Ok_0.0;
                let rest = spec_parse_topic_filters(body@, p2 as int)->Ok_0.0;
                assert(whole == seq![f_model] + rest);
                assert forall|j: int| 0 <= j < whole.len() implies #[trigger] acc@[old(acc)@.len() + j]@
                    == whole[j] by {
                    if j == 0 {
                        assert(acc@[mid.len() - 1] == mid[mid.len() - 1]);
                    } else {
                        assert(acc@[mid.len() + (j - 1)]@ == rest[j - 1]);
                    }
                }
            }
            Ok(())
        },
        Err(e) => Err(e),
    }
}

/// Unsubscribe entries (bare filter strings) until the body is exhausted,
/// appended to `acc`.  On an error, entries already read stay in `acc`.
fn decode_unsub_filters(body: &Vec<u8>, pos: usize, acc: &mut Vec<TopicFilter>) -> (r: Result<(), DecodeError>)
    requires
        pos <= body@.len(),
    ensures
        match r {
            Ok(()) => spec_parse_unsub_filters(body@, pos as int) matches Ok(pr)
                && final(acc)@.len() == old(acc)@.len() + pr.0.len()
                && (forall|j: int| 0 <= j < old(acc)@.len() ==> final(acc)@[j] == old(acc)@[j])
                && (forall|j: int| 0 <= j < pr.0.len() ==> #[trigger] final(acc)@[old(acc)@.len() + j]@ == pr.0[j]),
            Err(e) => spec_parse_unsub_filters(body@, pos as int)
                == Err::<(Seq<crate::topic::TopicFilterModel>, int), DecodeError>(e),
        },
    decreases body@.len() - pos,
{
    if pos >= body.len() {
        return Ok(());
    }
    let (name, p2) = match read_utf8_string(body, pos) {
        Ok(v) => v,
        Err(c) => {
            return Err(DecodeError::TopicFilter { cause: c });
        },
    };
    if p2 <= pos || p2 > body.len() {
        return Err(DecodeError::TopicFilter { cause: ReadError::InvalidData });
    }
    let ghost name_model = name@;
    let f = TopicFilter::from_unsubscribe(name);
    let ghost f_model = f@;
    acc.push(f);
    let ghost mid = acc@;
    match decode_unsub_filters(body, p2, acc) {
        Ok(()) => {
            proof {
                let whole = spec_parse_unsub_filters(body@, pos as int)->Ok_0.0;
                let rest = spec_parse_unsub_filters(body@, p2 as int)->Ok_0.0;
                assert(whole == seq![crate::packet_wire::spec_unsub_filter(name_model)] + rest);
                assert(f_model == crate::packet_wire::spec_unsub_filter(name_model));
                assert forall|j: int| 0 <= j < whole.len() implies #[trigger] acc@[old(acc)@.len() + j]@
                    == whole[j] by {
                    if j == 0 {
                        assert(acc@[mid.len() - 1] == mid[mid.len() - 1]);
                    } else {
                        assert(acc@[mid.len() + (j - 1)]@ == rest[j - 1]);
                    }
                }
            }
            Ok(())
        },
        Err(e) => Err(e),
    }
}

/// Decoder for the payload, driven by the packet type and, for CONNECT, the
/// flags of the already-decoded variable header.
pub struct PayloadDecoder {
    pub packet_type: ControlPacketType,
    pub variable_header: Option<VariableHeader>,
}

impl PayloadDecoder {
    pub fn new(packet_type: ControlPacketType, variable_header: Option<VariableHeader>) -> (r: Self)
        ensures
            r.packet_type == packet_type,
            r.variable_header == variable_header,
    {
        PayloadDecoder { packet_type, variable_header }
    }

    pub fn variable_header(&self) -> (r: &VariableHeader)
        requires
            self.variable_header is Some,
        ensures
            r == &self.variable_header->0,
    {
        self.variable_header.as_ref().unwrap()
    }

    /// The CONNECT flags available to the payload, if any.
    pub open spec fn spec_flags(&self) -> Option<ConnectFlags> {
        match self.variable_header {
            Some(v) => v.connect_flags,
            None => None,
        }
    }

    /// Read the payload from `body` at `pos` as the packet type directs;
    /// packet types without a payload yield none.
    pub fn decode(&self, body: &Vec<u8>, pos: usize) -> (r: Result<Option<Payload>, DecodeError>)
        requires
            pos <= body@.len(),
        ensures
            match r {
                Ok(v) => spec_parse_payload(body@, self.packet_type, self.spec_flags(), pos as int) matches Ok(pr)
                    && pr == crate::encoder::spec_opt_payload_model(v),
                Err(e) => spec_parse_payload(body@, self.packet_type, self.spec_flags(), pos as int)
                    == Err::<Option<crate::payload::PayloadModel>, DecodeError>(e),
            },
    {
        match self.packet_type {
            ControlPacketType::CONNECT => {
                let (client_id, p1) = match read_utf8_string(body, pos) {
                    Ok(v) => v,
                    Err(c) => {
                        return Err(DecodeError::UTF8String { cause: c });
                    },
                };
                let flags = match self.variable_header.as_ref() {
                    Some(vh) => match vh.connect_flags {
                        Some(f) => f,
                        None => {
                            return Err(DecodeError::ConnectFlags { cause: ReadError::InvalidData });
                        },
                    },
                    None => {
                        return Err(DecodeError::ConnectFlags { cause: ReadError::InvalidData });
                    },
                };
                let mut will_properties: Option<Vec<Property>> = None;
                let mut will_topic: Option<String> = None;
                let mut will_payload: Option<Vec<u8>> = None;
                let mut p4: usize = p1;
                if flags.will_flag {
                    let (wp, p2) = match decode_props(body, p1) {
                        Ok(v) => v,
                        Err(e) => {
                            return Err(e);
                        },
                    };
                    let (wt, p3) = match read_utf8_string(body, p2) {
                        Ok(v) => v,
                        Err(c) => {
                            return Err(DecodeError::UTF8String { cause: c });
                        },
                    };
                    let (wpl, p3b) = match read_binary_data(body, p3) {
                        Ok(v) => v,
                        Err(c) => {
                            return Err(DecodeError::BinaryData { cause: c });
                        },
                    };
                    will_properties = Some(wp);
                    will_topic = Some(wt);
                    will_payload = Some(wpl);
                    p4 = p3b;
                }
                let mut username: Option<String> = None;
                let mut p5: usize = p4;
                if flags.username_flag {
                    let (u, pu) = match read_utf8_string(body, p4) {
                        Ok(v) => v,
                        Err(c) => {
                            return Err(DecodeError::UTF8String { cause: c });
                        },
                    };
                    username = Some(u);
                    p5 = pu;
                }
                let mut password: Option<String> = None;
                if flags.password_flag {
                    let (w, _pw) = match read_utf8_string(body, p5) {
                        Ok(v) => v,
                        Err(c) => {
                            return Err(DecodeError::UTF8String { cause: c });
                        },
                    };
                    password = Some(w);
                }
                let p = Payload::from_connect(Some(client_id), will_properties, will_topic, will_payload, username, password);
                proof {
                    let pr = spec_parse_payload(body@, self.packet_type, self.spec_flags(), pos as int)->Ok_0;
                    match (&p.will_properties, &pr->0.will_properties) {
                        (Some(a), Some(b)) => {
                            assert forall|j: int| 0 <= j < b.len() implies Seq::new(
                                a@.len(),
                                |i: int| a@[i]@,
                            )[j] == b[j] by {
                                assert(a@[j]@ == b[j]);
                            }
                            assert(Seq::new(a@.len(), |i: int| a@[i]@) =~= *b);
                        },
                        _ => {},
                    }
                    assert(p@ =~~= pr->0);
                }
                Ok(Some(p))
            },
            ControlPacketType::PUBLISH => {
                let data = copy_range(body, pos, body.len());
                let p = Payload::from_publish(Some(data));
                proof {
                    let pr = spec_parse_payload(body@, self.packet_type, self.spec_flags(), pos as int)->Ok_0;
                    assert(p@ =~~= pr->0);
                }
                Ok(Some(p))
            },
            ControlPacketType::SUBSCRIBE => {
                let mut filters: Vec<TopicFilter> = Vec::new();
                match decode_topic_filters(body, pos, &mut filters) {
                    Ok(()) => {},
                    Err(e) => {
                        return Err(e);
                    },
                }
                let p = Payload::from_sub_unsub(filters);
                proof {
                    let pr = spec_parse_payload(body@, self.packet_type, self.spec_flags(), pos as int)->Ok_0;
                    match (&p.topic_filters, &pr->0.topic_filters) {
                        (Some(a), Some(b)) => {
                            assert forall|j: int| 0 <= j < b.len() implies Seq::new(
                                a@.len(),
                                |i: int| a@[i]@,
                            )[j] == b[j] by {
                                assert(a@[0 + j]@ == b[j]);
                            }
                            assert(Seq::new(a@.len(), |i: int| a@[i]@) =~= *b);
                        },
                        _ => {},
                    }
                    assert(p@ =~~= pr->0);
                }
                Ok(Some(p))
            },
            ControlPacketType::UNSUBSCRIBE => {
                let mut filters: Vec<TopicFilter> = Vec::new();
                match decode_unsub_filters(body, pos, &mut filters) {
                    Ok(()) => {},
                    Err(e) => {
                        return Err(e);
                    },
                }
                let p = Payload::from_sub_unsub(filters);
                proof {
                    let pr = spec_parse_payload(body@, self.packet_type, self.spec_flags(), pos as int)->Ok_0;
                    match (&p.topic_filters, &pr->0.topic_filters) {
                        (Some(a), Some(b)) => {
                            assert forall|j: int| 0 <= j < b.len() implies Seq::new(
                                a@.len(),
                                |i: int| a@[i]@,
                            )[j] == b[j] by {
                                assert(a@[0 + j]@ == b[j]);
                            }
                            assert(Seq::new(a@.len(), |i: int| a@[i]@) =~= *b);
                        },
                        _ => {},
                    }
                    assert(p@ =~~= pr->0);
                }
                Ok(Some(p))
            },
            _ => Ok(None),
        }
    }
}

/// Decode one whole packet from the front of `buffer`: the fixed header,
/// then a body of exactly `remaining_length` bytes.  Returns the packet and
/// the total byte count consumed; bytes past the body are left untouched.
pub fn decode_packet(buffer: &Vec<u8>) -> (r: Result<(ControlPacket, usize), DecodeError>)
    ensures
        match r {
            Ok(v) => spec_parse_packet(buffer@) matches Ok(pr) && pr.0 == v.0@ && pr.1 == v.1 as int,
            Err(e) => spec_parse_packet(buffer@) == Err::<(crate::control_packet::ControlPacketModel, int), DecodeError>(e),
        },
{
    let fixed_header_decoder = FixedHeaderDecoder::new();
    let (fh, p1) = match fixed_header_decoder.decode(buffer, 0) {
        Ok(v) => v,
        Err(e) => {
            return Err(e);
        },
    };
    let rem = fh.remaining_length;
    if rem > (buffer.len() - p1) as u64 {
        return Err(DecodeError::VariableHeaderAndPayload {
            cause: ReadError::NotEnoughData { position: p1 as u64, length: buffer.len() as u64, requested: rem },
        });
    }
    if rem == 0 {
        let packet = ControlPacket::new(fh, None, None);
        return Ok((packet, p1));
    }
    let body = copy_range(buffer, p1, p1 + rem as usize);
    let variable_header_decoder = VariableHeaderDecoder::new();
    let (vh, p2) = match variable_header_decoder.decode_with_header(&fh, &body) {
        Ok(v) => v,
        Err(e) => {
            return Err(e);
        },
    };
    let payload_decoder = PayloadDecoder::new(fh.packet_type, vh);
    let pl = match payload_decoder.decode(&body, p2) {
        Ok(v) => v,
        Err(e) => {
            return Err(e);
        },
    };
    let total = p1 + rem as usize;
    let packet = ControlPacket::new(fh, payload_decoder.variable_header, pl);
    Ok((packet, total))
}

} // verus!
