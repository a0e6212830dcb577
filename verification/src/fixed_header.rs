use vstd::prelude::*;
use crate::qos_level::QoSLevel;
use crate::vec_util::clone_bools;

verus! {

/// The sixteen MQTT 5 control-packet types, in wire order.
#[derive(Debug, Clone, Copy, PartialEq, Eq, Structural)]
pub enum ControlPacketType {
    RESERVED,
    CONNECT,
    CONNACK,
    PUBLISH,
    PUBACK,
    PUBREC,
    PUBREL,
    PUBCOMP,
    SUBSCRIBE,
    SUBACK,
    UNSUBSCRIBE,
    UNSUBACK,
    PINGREQ,
    PINGRESP,
    DISCONNECT,
    AUTH,
}

/// Type nibble of a packet type (the value of the top four bits of the
/// first byte, before shifting).
pub open spec fn spec_packet_type_nibble(t: ControlPacketType) -> u8 {
    match t {
        ControlPacketType::RESERVED => 0,
        ControlPacketType::CONNECT => 1,
        ControlPacketType::CONNACK => 2,
        ControlPacketType::PUBLISH => 3,
        ControlPacketType::PUBACK => 4,
        ControlPacketType::PUBREC => 5,
        ControlPacketType::PUBREL => 6,
        ControlPacketType::PUBCOMP => 7,
        ControlPacketType::SUBSCRIBE => 8,
        ControlPacketType::SUBACK => 9,
        ControlPacketType::UNSUBSCRIBE => 10,
        ControlPacketType::UNSUBACK => 11,
        ControlPacketType::PINGREQ => 12,
        ControlPacketType::PINGRESP => 13,
        ControlPacketType::DISCONNECT => 14,
        ControlPacketType::AUTH => 15,
    }
}

/// Packet type denoted by a type nibble, if the nibble is in range.
pub open spec fn spec_packet_type_from_u8(value: u8) -> Option<ControlPacketType> {
    if value == 0 {
        Some(ControlPacketType::RESERVED)
    } else if value == 1 {
        Some(ControlPacketType::CONNECT)
    } else if value == 2 {
        Some(ControlPacketType::CONNACK)
    } else if value == 3 {
        Some(ControlPacketType::PUBLISH)
    } else if value == 4 {
        Some(ControlPacketType::PUBACK)
    } else if value == 5 {
        Some(ControlPacketType::PUBREC)
    } else if value == 6 {
        Some(ControlPacketType::PUBREL)
    } else if value == 7 {
        Some(ControlPacketType::PUBCOMP)
    } else if value == 8 {
        Some(ControlPacketType::SUBSCRIBE)
    } else if value == 9 {
        Some(ControlPacketType::SUBACK)
    } else if value == 10 {
        Some(ControlPacketType::UNSUBSCRIBE)
    } else if value == 11 {
        Some(ControlPacketType::UNSUBACK)
    } else if value == 12 {
        Some(ControlPacketType::PINGREQ)
    } else if value == 13 {
        Some(ControlPacketType::PINGRESP)
    } else if value == 14 {
        Some(ControlPacketType::DISCONNECT)
    } else if value == 15 {
        Some(ControlPacketType::AUTH)
    } else {
        None
    }
}

impl ControlPacketType {
    /// The wire value of the packet type: the type nibble shifted into the
    /// top four bits of a byte.
    pub fn as_u8(&self) -> (r: u8)
        ensures
            r == spec_packet_type_nibble(*self) * 16,
    {
        match self {
            ControlPacketType::RESERVED => 0x00,
            ControlPacketType::CONNECT => 0x10,
            ControlPacketType::CONNACK => 0x20,
            ControlPacketType::PUBLISH => 0x30,
            ControlPacketType::PUBACK => 0x40,
            ControlPacketType::PUBREC => 0x50,
            ControlPacketType::PUBREL => 0x60,
            ControlPacketType::PUBCOMP => 0x70,
            ControlPacketType::SUBSCRIBE => 0x80,
            ControlPacketType::SUBACK => 0x90,
            ControlPacketType::UNSUBSCRIBE => 0xA0,
            ControlPacketType::UNSUBACK => 0xB0,
            ControlPacketType::PINGREQ => 0xC0,
            ControlPacketType::PINGRESP => 0xD0,
            ControlPacketType::DISCONNECT => 0xE0,
            ControlPacketType::AUTH => 0xF0,
        }
    }

    pub fn from_u8(value: u8) -> (r: Option<ControlPacketType>)
        ensures
            r == spec_packet_type_from_u8(value),
    {
        match value {
            0u8 => Some(ControlPacketType::RESERVED),
            1u8 => Some(ControlPacketType::CONNECT),
            2u8 => Some(ControlPacketType::CONNACK),
            3u8 => Some(ControlPacketType::PUBLISH),
            4u8 => Some(ControlPacketType::PUBACK),
            5u8 => Some(ControlPacketType::PUBREC),
            6u8 => Some(ControlPacketType::PUBREL),
            7u8 => Some(ControlPacketType::PUBCOMP),
            8u8 => Some(ControlPacketType::SUBSCRIBE),
            9u8 => Some(ControlPacketType::SUBACK),
            10u8 => Some(ControlPacketType::UNSUBSCRIBE),
            11u8 => Some(ControlPacketType::UNSUBACK),
            12u8 => Some(ControlPacketType::PINGREQ),
            13u8 => Some(ControlPacketType::PINGRESP),
            14u8 => Some(ControlPacketType::DISCONNECT),
            15u8 => Some(ControlPacketType::AUTH),
            _ => None,
        }
    }
}

/// Mathematical value of a fixed header: the flag vector as a sequence.
#[verifier::ext_equal]
pub struct FixedHeaderModel {
    pub packet_type: ControlPacketType,
    pub control_flags: Option<Seq<bool>>,
    pub remaining_length: u64,
    pub dup_flag: Option<bool>,
    pub qos_level: Option<QoSLevel>,
    pub retain: Option<bool>,
}

/// First 1-5 bytes of every packet: the packet type, the flag nibble
/// (a four-bit vector for every type but PUBLISH, and the triple
/// dup/qos/retain for PUBLISH), and the byte count of the body.
#[derive(Debug)]
pub struct FixedHeader {
    pub packet_type: ControlPacketType,
    pub control_flags: Option<Vec<bool>>,
    pub remaining_length: u64,
    pub dup_flag: Option<bool>,
    pub qos_level: Option<QoSLevel>,
    pub retain: Option<bool>,
}

impl View for FixedHeader {
    type V = FixedHeaderModel;

    open spec fn view(&self) -> FixedHeaderModel {
        FixedHeaderModel {
            packet_type: self.packet_type,
            control_flags: match self.control_flags {
                Some(f) => Some(f@),
                None => None,
            },
            remaining_length: self.remaining_length,
            dup_flag: self.dup_flag,
            qos_level: self.qos_level,
            retain: self.retain,
        }
    }
}

impl Clone for FixedHeader {
    /// A clone denotes the same header.
    fn clone(&self) -> (r: Self)
        ensures
            r@ == self@,
    {
        let r = FixedHeader {
            packet_type: self.packet_type,
            control_flags: match &self.control_flags {
                Some(v) => Some(clone_bools(v)),
                None => None,
            },
            remaining_length: self.remaining_length,
            dup_flag: self.dup_flag,
            qos_level: self.qos_level,
            retain: self.retain,
        };
        proof {
            assert(r@ =~~= self@);
        }
        r
    }
}

impl FixedHeader {
    pub fn new(packet_type: ControlPacketType, control_flags: Vec<bool>, remaining_length: u64) -> (r: Self)
        ensures
            r@ == (FixedHeaderModel {
                packet_type,
                control_flags: Some(control_flags@),
                remaining_length,
                dup_flag: None,
                qos_level: None,
                retain: None,
            }),
    {
        FixedHeader {
            packet_type,
            control_flags: Some(control_flags),
            remaining_length,
            dup_flag: None,
            qos_level: None,
            retain: None,
        }
    }

    pub fn from_publish(dup_flag: bool, qos_level: QoSLevel, retain: bool, remaining_length: u64) -> (r: FixedHeader)
        ensures
            r@ == (FixedHeaderModel {
                packet_type: ControlPacketType::PUBLISH,
                control_flags: None,
                remaining_length,
                dup_flag: Some(dup_flag),
                qos_level: Some(qos_level),
                retain: Some(retain),
            }),
    {
        FixedHeader {
            packet_type: ControlPacketType::PUBLISH,
            control_flags: None,
            remaining_length,
            dup_flag: Some(dup_flag),
            qos_level: Some(qos_level),
            retain: Some(retain),
        }
    }

    pub fn packet_type(&self) -> (r: ControlPacketType)
        ensures
            r == self.packet_type,
    {
        self.packet_type
    }

    pub fn control_flags(&self) -> (r: &Vec<bool>)
        requires
            self.control_flags is Some,
        ensures
            r@ == self@.control_flags->0,
    {
        self.control_flags.as_ref().unwrap()
    }

    pub fn remaining_length(&self) -> (r: u64)
        ensures
            r == self.remaining_length,
    {
        self.remaining_length
    }

    pub fn dup_flag(&self) -> (r: &bool)
        requires
            self.dup_flag is Some,
        ensures
            *r == self.dup_flag->0,
    {
        self.dup_flag.as_ref().unwrap()
    }

    pub fn qos_level(&self) -> (r: &QoSLevel)
        requires
            self.qos_level is Some,
        ensures
            *r == self.qos_level->0,
    {
        self.qos_level.as_ref().unwrap()
    }

    pub fn retain(&self) -> (r: &bool)
        requires
            self.retain is Some,
        ensures
            *r == self.retain->0,
    {
        self.retain.as_ref().unwrap()
    }
}

} // verus!
