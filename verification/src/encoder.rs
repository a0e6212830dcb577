//! The executable encoder: from packets to bytes, verified to agree with
//! the encoding specification on every input.

use vstd::prelude::*;
use crate::control_packet::ControlPacket;
use crate::encode_error::EncodeError;
use crate::fixed_header::{ControlPacketType, FixedHeader};
use crate::packet_wire::{
    spec_encode_first_byte, spec_encode_packet, spec_encode_payload, spec_encode_reason_codes,
    spec_encode_topic_filters, spec_encode_unsub_filters, spec_encode_variable_header, spec_packet_flags,
    spec_subscription_options_byte,
};
use crate::payload::Payload;
use crate::reason_code::ReasonCode;
use crate::topic::TopicFilter;
use crate::variable_header::{ConnectFlags, VariableHeader, VariableHeaderModel};
use crate::wire::{VBI_MAX, append_bytes, encode_variable_byte_integer, write_u16_be, write_utf8_string, write_binary_data};

verus! {

/// The variable-header model carried by an optional variable header.
pub open spec fn spec_opt_vh_model(vh: Option<VariableHeader>) -> Option<VariableHeaderModel> {
    match vh {
        Some(v) => Some(v@),
        None => None,
    }
}

/// The payload model carried by an optional payload.
pub open spec fn spec_opt_payload_model(pl: Option<Payload>) -> Option<crate::payload::PayloadModel> {
    match pl {
        Some(p) => Some(p@),
        None => None,
    }
}

/// The models of a subscription-entry list.
pub open spec fn spec_filter_models(fs: Seq<TopicFilter>) -> Seq<crate::topic::TopicFilterModel> {
    Seq::new(fs.len(), |i: int| fs[i]@)
}

/// First byte of the fixed header: type nibble above the flag nibble.
fn encode_first_byte(fh: &FixedHeader) -> (r: Result<u8, EncodeError>)
    ensures
        match r {
            Ok(b) => spec_encode_first_byte(fh@) == Ok::<u8, EncodeError>(b),
            Err(e) => spec_encode_first_byte(fh@) == Err::<u8, EncodeError>(e),
        },
{
    let base = fh.packet_type.as_u8();
    match fh.packet_type {
        ControlPacketType::PUBLISH => {
            if fh.dup_flag.is_some() && fh.qos_level.is_some() && fh.retain.is_some() {
                let dup = *fh.dup_flag.as_ref().unwrap();
                let qos = *fh.qos_level.as_ref().unwrap();
                let retain = *fh.retain.as_ref().unwrap();
                let nibble: u8 = (if dup { 8u8 } else { 0u8 }) + qos.as_u8() * 2 + (if retain { 1u8 } else { 0u8 });
                Ok(base + nibble)
            } else {
                Err(EncodeError::NotEnoughData)
            }
        },
        _ => {
            match fh.control_flags.as_ref() {
                Some(flags) => {
                    if flags.len() == 4 {
                        let nibble: u8 = (if flags[0] { 8u8 } else { 0u8 }) + (if flags[1] { 4u8 } else { 0u8 })
                            + (if flags[2] { 2u8 } else { 0u8 }) + (if flags[3] { 1u8 } else { 0u8 });
                        Ok(base + nibble)
                    } else {
                        Err(EncodeError::NotEnoughData)
                    }
                },
                None => Err(EncodeError::NotEnoughData),
            }
        },
    }
}

/// CONNECT flag byte from the flag record.
fn encode_connect_flags(f: &ConnectFlags) -> (r: u8)
    ensures
        r as int == crate::packet_wire::spec_connect_flags_byte(*f),
{
    (if f.username_flag { 128u8 } else { 0u8 }) + (if f.password_flag { 64u8 } else { 0u8 })
        + (if f.will_retain_flag { 32u8 } else { 0u8 }) + f.will_qos.as_u8() * 8
        + (if f.will_flag { 4u8 } else { 0u8 }) + (if f.clean_start_flag { 2u8 } else { 0u8 })
        + (if f.reserved_flag { 1u8 } else { 0u8 })
}

/// Subscription option byte of one entry.
fn encode_subscription_options(f: &TopicFilter) -> (r: u8)
    ensures
        r as int == spec_subscription_options_byte(f@),
{
    let r0: u8 = if f.reserved_bits.len() > 0 && f.reserved_bits[0] { 128u8 } else { 0u8 };
    let r1: u8 = if f.reserved_bits.len() > 1 && f.reserved_bits[1] { 64u8 } else { 0u8 };
    r0 + r1 + f.retain_handling.as_u8() * 16 + (if f.retain_as_published { 8u8 } else { 0u8 })
        + (if f.no_local { 4u8 } else { 0u8 }) + f.maximum_qos.as_u8()
}

/// Bytes of the subscription entries of a SUBSCRIBE payload from entry `i` on.
fn encode_topic_filters_from(fs: &Vec<TopicFilter>, i: usize) -> (r: Result<Vec<u8>, EncodeError>)
    requires
        i <= fs@.len(),
    ensures
        match r {
            Ok(v) => spec_encode_topic_filters(spec_filter_models(fs@).skip(i as int)) == Ok::<Seq<u8>, EncodeError>(v@),
            Err(e) => spec_encode_topic_filters(spec_filter_models(fs@).skip(i as int)) == Err::<Seq<u8>, EncodeError>(e),
        },
    decreases fs@.len() - i,
{
    let ghost models = spec_filter_models(fs@).skip(i as int);
    if i == fs.len() {
        proof {
            assert(models =~= Seq::<crate::topic::TopicFilterModel>::empty());
        }
        Ok(Vec::new())
    } else {
        proof {
            assert(models[0] == fs@[i as int]@);
            assert(models.drop_first() =~= spec_filter_models(fs@).skip(i + 1 as int));
        }
        let mut out: Vec<u8> = Vec::new();
        match write_utf8_string(&fs[i].topic_filter, &mut out) {
            Ok(()) => {},
            Err(e) => {
                return Err(e);
            },
        }
        out.push(encode_subscription_options(&fs[i]));
        match encode_topic_filters_from(fs, i + 1) {
            Ok(rest) => {
                append_bytes(&mut out, &rest);
                proof {
                    assert(out@ =~= crate::wire::spec_encode_utf8_string(fs@[i as int]@.topic_filter)->Ok_0
                        + seq![spec_subscription_options_byte(fs@[i as int]@) as u8] + rest@);
                }
                Ok(out)
            },
            Err(e) => Err(e),
        }
    }
}

/// Bytes of the filter strings of an UNSUBSCRIBE payload from entry `i` on.
fn encode_unsub_filters_from(fs: &Vec<TopicFilter>, i: usize) -> (r: Result<Vec<u8>, EncodeError>)
    requires
        i <= fs@.len(),
    ensures
        match r {
            Ok(v) => spec_encode_unsub_filters(spec_filter_models(fs@).skip(i as int)) == Ok::<Seq<u8>, EncodeError>(v@),
            Err(e) => spec_encode_unsub_filters(spec_filter_models(fs@).skip(i as int)) == Err::<Seq<u8>, EncodeError>(e),
        },
    decreases fs@.len() - i,
{
    let ghost models = spec_filter_models(fs@).skip(i as int);
    if i == fs.len() {
        proof {
            assert(models =~= Seq::<crate::topic::TopicFilterModel>::empty());
        }
        Ok(Vec::new())
    } else {
        proof {
            assert(models[0] == fs@[i as int]@);
            assert(models.drop_first() =~= spec_filter_models(fs@).skip(i + 1 as int));
        }
        let mut out: Vec<u8> = Vec::new();
        match write_utf8_string(&fs[i].topic_filter, &mut out) {
            Ok(()) => {},
            Err(e) => {
                return Err(e);
            },
        }
        match encode_unsub_filters_from(fs, i + 1) {
            Ok(rest) => {
                append_bytes(&mut out, &rest);
                proof {
                    assert(out@ =~= crate::wire::spec_encode_utf8_string(fs@[i as int]@.topic_filter)->Ok_0 + rest@);
                }
                Ok(out)
            },
            Err(e) => Err(e),
        }
    }
}

/// Reason-code bytes of a SUBACK or UNSUBACK payload.
fn encode_reason_codes(rs: &Vec<ReasonCode>) -> (r: Vec<u8>)
    ensures
        r@ == spec_encode_reason_codes(rs@),
{
    let mut out: Vec<u8> = Vec::new();
    let mut i: usize = 0;
    while i < rs.len()
        invariant
            i <= rs@.len(),
            out@ == spec_encode_reason_codes(rs@).subrange(0, i as int),
        decreases rs@.len() - i,
    {
        out.push(rs[i].as_u8());
        assert(out@ =~= spec_encode_reason_codes(rs@).subrange(0, i + 1 as int));
        i = i + 1;
    }
    assert(out@ =~= spec_encode_reason_codes(rs@));
    out
}

/// Variable-header bytes of a packet.
fn encode_variable_header(t: ControlPacketType, vh: &Option<VariableHeader>) -> (r: Result<Vec<u8>, EncodeError>)
    ensures
        match r {
            Ok(v) => spec_encode_variable_header(t, spec_opt_vh_model(*vh)) == Ok::<Seq<u8>, EncodeError>(v@),
            Err(e) => spec_encode_variable_header(t, spec_opt_vh_model(*vh)) == Err::<Seq<u8>, EncodeError>(e),
        },
{
    let mut out: Vec<u8> = Vec::new();
    let v = match vh.as_ref() {
        None => {
            proof {
                assert(out@ =~= Seq::<u8>::empty());
            }
            return Ok(out);
        },
        Some(v) => v,
    };
    match t {
        ControlPacketType::CONNECT => {
            if v.protocol_name.is_some() && v.protocol_version.is_some() && v.connect_flags.is_some() {
                match write_utf8_string(v.protocol_name.as_ref().unwrap(), &mut out) {
                    Ok(()) => {},
                    Err(e) => {
                        return Err(e);
                    },
                }
                out.push(*v.protocol_version.as_ref().unwrap());
                out.push(encode_connect_flags(v.connect_flags.as_ref().unwrap()));
                let ka: u16 = match v.keep_alive {
                    Some(ka) => ka,
                    None => 0,
                };
                write_u16_be(ka, &mut out);
                out.push(0u8);
                proof {
                    assert(out@ =~= spec_encode_variable_header(t, spec_opt_vh_model(*vh))->Ok_0);
                }
                Ok(out)
            } else {
                Err(EncodeError::NotEnoughData)
            }
        },
        ControlPacketType::CONNACK => match v.connect_acknowledge_flags {
            Some(af) => {
                out.push(if af.session_present { 1u8 } else { 0u8 });
                match v.reason_code {
                    Some(rc) => {
                        out.push(rc.as_u8());
                    },
                    None => {},
                }
                out.push(0u8);
                proof {
                    assert(out@ =~= spec_encode_variable_header(t, spec_opt_vh_model(*vh))->Ok_0);
                }
                Ok(out)
            },
            None => Err(EncodeError::NotEnoughData),
        },
        ControlPacketType::PUBLISH => match v.topic_name.as_ref() {
            Some(topic) => {
                match write_utf8_string(topic, &mut out) {
                    Ok(()) => {},
                    Err(e) => {
                        return Err(e);
                    },
                }
                match v.packet_identifier {
                    Some(pid) => {
                        write_u16_be(pid, &mut out);
                    },
                    None => {},
                }
                out.push(0u8);
                proof {
                    assert(out@ =~= spec_encode_variable_header(t, spec_opt_vh_model(*vh))->Ok_0);
                }
                Ok(out)
            },
            None => Err(EncodeError::NotEnoughData),
        },
        ControlPacketType::PUBACK | ControlPacketType::PUBREC | ControlPacketType::PUBREL
            | ControlPacketType::PUBCOMP => match v.packet_identifier {
            Some(pid) => {
                write_u16_be(pid, &mut out);
                match v.reason_code {
                    Some(rc) => {
                        out.push(rc.as_u8());
                    },
                    None => {},
                }
                out.push(0u8);
                proof {
                    assert(out@ =~= spec_encode_variable_header(t, spec_opt_vh_model(*vh))->Ok_0);
                }
                Ok(out)
            },
            None => Err(EncodeError::NotEnoughData),
        },
        ControlPacketType::SUBSCRIBE | ControlPacketType::UNSUBSCRIBE | ControlPacketType::SUBACK
            | ControlPacketType::UNSUBACK => match v.packet_identifier {
            Some(pid) => {
                write_u16_be(pid, &mut out);
                out.push(0u8);
                proof {
                    assert(out@ =~= spec_encode_variable_header(t, spec_opt_vh_model(*vh))->Ok_0);
                }
                Ok(out)
            },
            None => Err(EncodeError::NotEnoughData),
        },
        ControlPacketType::DISCONNECT => match v.reason_code {
            Some(rc) => {
                out.push(rc.as_u8());
                out.push(0u8);
                proof {
                    assert(out@ =~= spec_encode_variable_header(t, spec_opt_vh_model(*vh))->Ok_0);
                }
                Ok(out)
            },
            None => Err(EncodeError::NotEnoughData),
        },
        _ => {
            proof {
                assert(out@ =~= Seq::<u8>::empty());
            }
            Ok(out)
        },
    }
}

/// Payload bytes of a packet.
#[verifier::rlimit(60)]
fn encode_payload(t: ControlPacketType, flags: Option<ConnectFlags>, pl: &Option<Payload>) -> (r: Result<Vec<u8>, EncodeError>)
    ensures
        match r {
            Ok(v) => spec_encode_payload(t, flags, spec_opt_payload_model(*pl)) == Ok::<Seq<u8>, EncodeError>(v@),
            Err(e) => spec_encode_payload(t, flags, spec_opt_payload_model(*pl)) == Err::<Seq<u8>, EncodeError>(e),
        },
{
    let mut out: Vec<u8> = Vec::new();
    let p = match pl.as_ref() {
        None => {
            proof {
                assert(out@ =~= Seq::<u8>::empty());
            }
            return Ok(out);
        },
        Some(p) => p,
    };
    match t {
        ControlPacketType::CONNECT => {
            match p.client_id.as_ref() {
                Some(cid) => match write_utf8_string(cid, &mut out) {
                    Ok(()) => {},
                    Err(e) => {
                        return Err(e);
                    },
                },
                None => {
                    let empty = String::new();
                    proof {
                        assert(empty@ =~= Seq::<char>::empty());
                    }
                    match write_utf8_string(&empty, &mut out) {
                        Ok(()) => {},
                        Err(e) => {
                            return Err(e);
                        },
                    }
                },
            }
            let f: ConnectFlags = match flags {
                Some(f) => f,
                None => ConnectFlags {
                    username_flag: false,
                    password_flag: false,
                    will_retain_flag: false,
                    will_qos: crate::qos_level::QoSLevel::AtMostOnce,
                    will_flag: false,
                    clean_start_flag: false,
                    reserved_flag: false,
                },
            };
            if f.will_flag {
                if p.will_topic.is_some() && p.will_payload.is_some() {
                    out.push(0u8);
                    match write_utf8_string(p.will_topic.as_ref().unwrap(), &mut out) {
                        Ok(()) => {},
                        Err(e) => {
                            return Err(e);
                        },
                    }
                    match write_binary_data(p.will_payload.as_ref().unwrap(), &mut out) {
                        Ok(()) => {},
                        Err(e) => {
                            return Err(e);
                        },
                    }
                } else {
                    return Err(EncodeError::NotEnoughData);
                }
            }
            if f.username_flag {
                match p.username.as_ref() {
                    Some(u) => match write_utf8_string(u, &mut out) {
                        Ok(()) => {},
                        Err(e) => {
                            return Err(e);
                        },
                    },
                    None => {
                        return Err(EncodeError::NotEnoughData);
                    },
                }
            }
            if f.password_flag {
                match p.password.as_ref() {
                    Some(w) => match write_utf8_string(w, &mut out) {
                        Ok(()) => {},
                        Err(e) => {
                            return Err(e);
                        },
                    },
                    None => {
                        return Err(EncodeError::NotEnoughData);
                    },
                }
            }
            proof {
                assert(out@ =~= spec_encode_payload(t, flags, spec_opt_payload_model(*pl))->Ok_0);
            }
            Ok(out)
        },
        ControlPacketType::PUBLISH => match p.data.as_ref() {
            Some(d) => {
                append_bytes(&mut out, d);
                proof {
                    assert(out@ =~= d@);
                }
                Ok(out)
            },
            None => Err(EncodeError::NotEnoughData),
        },
        ControlPacketType::SUBSCRIBE => match p.topic_filters.as_ref() {
            Some(fs) => {
                proof {
                    assert(spec_filter_models(fs@).skip(0) =~= spec_filter_models(fs@));
                }
                encode_topic_filters_from(fs, 0)
            },
            None => Err(EncodeError::NotEnoughData),
        },
        ControlPacketType::UNSUBSCRIBE => match p.topic_filters.as_ref() {
            Some(fs) => {
                proof {
                    assert(spec_filter_models(fs@).skip(0) =~= spec_filter_models(fs@));
                }
                encode_unsub_filters_from(fs, 0)
            },
            None => Err(EncodeError::NotEnoughData),
        },
        ControlPacketType::SUBACK | ControlPacketType::UNSUBACK => match p.reason_codes.as_ref() {
            Some(rs) => Ok(encode_reason_codes(rs)),
            None => Err(EncodeError::NotEnoughData),
        },
        _ => {
            proof {
                assert(out@ =~= Seq::<u8>::empty());
            }
            Ok(out)
        },
    }
}

/// Encode a whole packet into a fresh buffer.  The payload and variable
/// header are sized first, then the fixed header is written with the
/// computed body length, as the wire format requires.
pub fn encode_packet(packet: &ControlPacket) -> (r: Result<Vec<u8>, EncodeError>)
    ensures
        match r {
            Ok(v) => spec_encode_packet(packet@) == Ok::<Seq<u8>, EncodeError>(v@),
            Err(e) => spec_encode_packet(packet@) == Err::<Seq<u8>, EncodeError>(e),
        },
{
    let flags: Option<ConnectFlags> = match packet.variable_header.as_ref() {
        Some(v) => v.connect_flags,
        None => None,
    };
    proof {
        assert(flags == spec_packet_flags(packet@));
    }
    let pl = match encode_payload(packet.fixed_header.packet_type, flags, &packet.payload) {
        Ok(v) => v,
        Err(e) => {
            return Err(e);
        },
    };
    let vh = match encode_variable_header(packet.fixed_header.packet_type, &packet.variable_header) {
        Ok(v) => v,
        Err(e) => {
            return Err(e);
        },
    };
    if vh.len() as u64 > VBI_MAX {
        return Err(EncodeError::ExceededMaxLength);
    }
    if pl.len() as u64 > VBI_MAX - vh.len() as u64 {
        return Err(EncodeError::ExceededMaxLength);
    }
    let rem: u64 = vh.len() as u64 + pl.len() as u64;
    let first = match encode_first_byte(&packet.fixed_header) {
        Ok(b) => b,
        Err(e) => {
            return Err(e);
        },
    };
    let mut out: Vec<u8> = Vec::new();
    out.push(first);
    match encode_variable_byte_integer(rem, &mut out) {
        Ok(()) => {},
        Err(_) => {
            proof {
                assert(false);
            }
            return Err(EncodeError::ExceededMaxLength);
        },
    }
    append_bytes(&mut out, &vh);
    append_bytes(&mut out, &pl);
    proof {
        assert(out@ =~= spec_encode_packet(packet@)->Ok_0);
    }
    Ok(out)
}

} // verus!
