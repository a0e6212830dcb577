use vstd::prelude::*;
use crate::fixed_header::{ControlPacketType, FixedHeader, FixedHeaderModel};
use crate::payload::{Payload, PayloadModel};
use crate::qos_level::QoSLevel;
use crate::reason_code::ReasonCode;
use crate::topic::{RetainHandling, TopicFilter, TopicFilterModel};
use crate::variable_header::{ConnectAcknowledgeFlags, ConnectFlags, Property, PropertyModel, VariableHeader, VariableHeaderModel};

verus! {

/// Mathematical value of a whole control packet.
#[verifier::ext_equal]
pub struct ControlPacketModel {
    pub fixed_header: FixedHeaderModel,
    pub variable_header: Option<VariableHeaderModel>,
    pub payload: Option<PayloadModel>,
}

/// The flag nibble every non-PUBLISH constructor uses: four cleared bits.
pub open spec fn spec_zero_flags() -> Seq<bool> {
    seq![false, false, false, false]
}

/// Fixed header of a non-PUBLISH packet as the constructors build it.
pub open spec fn spec_plain_header(t: ControlPacketType, flags: Seq<bool>) -> FixedHeaderModel {
    FixedHeaderModel {
        packet_type: t,
        control_flags: Some(flags),
        remaining_length: 0,
        dup_flag: None,
        qos_level: None,
        retain: None,
    }
}

/// Variable header of a PUBACK, PUBREC, PUBREL or PUBCOMP built by the
/// constructors: the identifier, reason `Success`, no properties.
pub open spec fn spec_ack_header(packet_identifier: Option<u16>) -> VariableHeaderModel {
    VariableHeaderModel {
        protocol_name: None,
        protocol_version: None,
        connect_flags: None,
        keep_alive: None,
        connect_acknowledge_flags: None,
        reason_code: Some(ReasonCode::Success),
        properties: Seq::<PropertyModel>::empty(),
        packet_identifier,
        topic_name: None,
    }
}

/// The packet an acknowledgment constructor builds.
pub open spec fn spec_ack_packet(t: ControlPacketType, flags: Seq<bool>, packet_identifier: Option<u16>) -> ControlPacketModel {
    ControlPacketModel {
        fixed_header: spec_plain_header(t, flags),
        variable_header: Some(spec_ack_header(packet_identifier)),
        payload: None,
    }
}

/// A complete MQTT 5 control packet: fixed header, then (depending on the
/// packet type) a variable header and a payload.
#[derive(Debug)]
pub struct ControlPacket {
    pub fixed_header: FixedHeader,
    pub variable_header: Option<VariableHeader>,
    pub payload: Option<Payload>,
}

impl View for ControlPacket {
    type V = ControlPacketModel;

    open spec fn view(&self) -> ControlPacketModel {
        ControlPacketModel {
            fixed_header: self.fixed_header@,
            variable_header: match self.variable_header {
                Some(vh) => Some(vh@),
                None => None,
            },
            payload: match self.payload {
                Some(p) => Some(p@),
                None => None,
            },
        }
    }
}


impl Clone for ControlPacket {
    /// A clone denotes the same packet.
    fn clone(&self) -> (r: Self)
        ensures
            r@ == self@,
    {
        let r = ControlPacket {
            fixed_header: self.fixed_header.clone(),
            variable_header: match &self.variable_header {
                Some(vh) => Some(vh.clone()),
                None => None,
            },
            payload: match &self.payload {
                Some(p) => Some(p.clone()),
                None => None,
            },
        };
        proof {
            assert(r@ =~~= self@);
        }
        r
    }
}

impl ControlPacket {
    pub fn new(fixed_header: FixedHeader, variable_header: Option<VariableHeader>, payload: Option<Payload>) -> (r: Self)
        ensures
            r.fixed_header == fixed_header,
            r.variable_header == variable_header,
            r.payload == payload,
    {
        ControlPacket { fixed_header, variable_header, payload }
    }

    pub fn fixed_header(&self) -> (r: &FixedHeader)
        ensures
            r == &self.fixed_header,
    {
        &self.fixed_header
    }

    pub fn variable_header_opt(&self) -> (r: Option<&VariableHeader>)
        ensures
            match r {
                Some(vh) => self.variable_header is Some && vh == &self.variable_header->0,
                None => self.variable_header is None,
            },
    {
        self.variable_header.as_ref()
    }

    pub fn variable_header(&self) -> (r: &VariableHeader)
        requires
            self.variable_header is Some,
        ensures
            r == &self.variable_header->0,
    {
        self.variable_header.as_ref().unwrap()
    }

    pub fn payload_opt(&self) -> (r: Option<&Payload>)
        ensures
            match r {
                Some(p) => self.payload is Some && p == &self.payload->0,
                None => self.payload is None,
            },
    {
        self.payload.as_ref()
    }

    pub fn payload(&self) -> (r: &Payload)
        requires
            self.payload is Some,
        ensures
            r == &self.payload->0,
    {
        self.payload.as_ref().unwrap()
    }

    /// Whether the packet carries a nonempty client identifier in its payload.
    pub open spec fn spec_has_client_id(&self) -> bool {
        &&& self.payload is Some
        &&& self.payload->0.client_id is Some
        &&& self.payload->0@.client_id->0.len() > 0
    }

    pub fn has_client_id(&self) -> (r: bool)
        ensures
            r == self.spec_has_client_id(),
    {
        match self.payload.as_ref() {
            Some(payload) => match payload.client_id.as_ref() {
                Some(client_id) => client_id.as_str().unicode_len() > 0,
                None => false,
            },
            None => false,
        }
    }

    pub fn connect(
        connect_flags: ConnectFlags,
        keep_alive: Option<u16>,
        properties: Vec<Property>,
        client_id: Option<String>,
        will_properties: Option<Vec<Property>>,
        will_topic: Option<String>,
        will_payload: Option<Vec<u8>>,
        username: Option<String>,
        password: Option<String>,
    ) -> (r: Self)
        ensures
            r.fixed_header@ == spec_plain_header(ControlPacketType::CONNECT, spec_zero_flags()),
            r.variable_header is Some,
            r.variable_header->0@ == (VariableHeaderModel {
                protocol_name: Some("MQTT"@),
                protocol_version: Some(5u8),
                connect_flags: Some(connect_flags),
                keep_alive,
                connect_acknowledge_flags: None,
                reason_code: None,
                properties: Seq::new(properties@.len(), |i: int| properties@[i]@),
                packet_identifier: None,
                topic_name: None,
            }),
            r.payload is Some,
            r.payload->0 == (Payload {
                client_id,
                will_properties,
                will_topic,
                will_payload,
                username,
                password,
                topic_filters: None,
                reason_codes: None,
                data: None,
            }),
    {
        let fixed_header = FixedHeader::new(ControlPacketType::CONNECT, vec![false, false, false, false], 0);
        let variable_header = VariableHeader::from_connect(
            Some(String::from_str("MQTT")),
            Some(5),
            Some(connect_flags),
            keep_alive,
            properties,
        );
        let payload = Payload::from_connect(client_id, will_properties, will_topic, will_payload, username, password);
        ControlPacket::new(fixed_header, Some(variable_header), Some(payload))
    }

    pub fn connack(session_present: bool) -> (r: Self)
        ensures
            r@ == (ControlPacketModel {
                fixed_header: spec_plain_header(ControlPacketType::CONNACK, spec_zero_flags()),
                variable_header: Some(VariableHeaderModel {
                    protocol_name: None,
                    protocol_version: None,
                    connect_flags: None,
                    keep_alive: None,
                    connect_acknowledge_flags: Some(ConnectAcknowledgeFlags { session_present }),
                    reason_code: Some(ReasonCode::Success),
                    properties: Seq::<PropertyModel>::empty(),
                    packet_identifier: None,
                    topic_name: None,
                }),
                payload: None,
            }),
    {
        let fixed_header = FixedHeader::new(ControlPacketType::CONNACK, vec![false, false, false, false], 0);
        let variable_header = VariableHeader::from_connack(
            ConnectAcknowledgeFlags::new(session_present),
            ReasonCode::Success,
            Vec::new(),
        );
        let r = ControlPacket::new(fixed_header, Some(variable_header), None);
        proof {
            assert(r.variable_header->0@.properties =~= Seq::<PropertyModel>::empty());
        }
        r
    }

    pub fn subscribe(packet_identifier: Option<u16>, topic_filter: String, maximum_qos: QoSLevel) -> (r: Self)
        ensures
            r.fixed_header@ == spec_plain_header(ControlPacketType::SUBSCRIBE, spec_zero_flags()),
            r.variable_header is Some,
            r.variable_header->0 == (VariableHeader {
                protocol_name: None,
                protocol_version: None,
                connect_flags: None,
                keep_alive: None,
                connect_acknowledge_flags: None,
                reason_code: None,
                properties: r.variable_header->0.properties,
                packet_identifier,
                topic_name: None,
            }),
            r.variable_header->0.properties@ =~= Seq::<Property>::empty(),
            r.payload is Some,
            r.payload->0@.topic_filters is Some,
            r.payload->0@.topic_filters->0 =~= seq![
                TopicFilterModel {
                    topic_filter: topic_filter@,
                    maximum_qos,
                    no_local: false,
                    retain_as_published: false,
                    retain_handling: RetainHandling::DontSendRetainedMessages,
                    reserved_bits: Seq::<bool>::empty(),
                },
            ],
            r.payload->0.client_id is None,
            r.payload->0.will_properties is None,
            r.payload->0.will_topic is None,
            r.payload->0.will_payload is None,
            r.payload->0.username is None,
            r.payload->0.password is None,
            r.payload->0.reason_codes is None,
            r.payload->0.data is None,
    {
        let topic_filter = TopicFilter::from_subscribe(
            topic_filter,
            maximum_qos,
            false,
            false,
            RetainHandling::DontSendRetainedMessages,
            Vec::new(),
        );
        let payload = Payload::from_sub_unsub(vec![topic_filter]);
        let variable_header = VariableHeader::from_sub_unsub(packet_identifier, Vec::new());
        let fixed_header = FixedHeader::new(ControlPacketType::SUBSCRIBE, vec![false, false, false, false], 0);
        ControlPacket::new(fixed_header, Some(variable_header), Some(payload))
    }

    pub fn suback(packet_identifier: Option<u16>, reason_codes: Vec<ReasonCode>) -> (r: Self)
        ensures
            r.fixed_header@ == spec_plain_header(ControlPacketType::SUBACK, spec_zero_flags()),
            r.variable_header is Some,
            r.variable_header->0@ == (VariableHeaderModel {
                protocol_name: None,
                protocol_version: None,
                connect_flags: None,
                keep_alive: None,
                connect_acknowledge_flags: None,
                reason_code: None,
                properties: Seq::<PropertyModel>::empty(),
                packet_identifier,
                topic_name: None,
            }),
            r.payload is Some,
            r.payload->0 == (Payload {
                client_id: None,
                will_properties: None,
                will_topic: None,
                will_payload: None,
                username: None,
                password: None,
                topic_filters: None,
                reason_codes: Some(reason_codes),
                data: None,
            }),
    {
        let payload = Payload::from_sub_unsub_ack(Some(reason_codes));
        let variable_header = VariableHeader::from_suback(packet_identifier, Vec::new());
        let fixed_header = FixedHeader::new(ControlPacketType::SUBACK, vec![false, false, false, false], 0);
        let r = ControlPacket::new(fixed_header, Some(variable_header), Some(payload));
        proof {
            assert(r.variable_header->0@.properties =~= Seq::<PropertyModel>::empty());
        }
        r
    }

    pub fn unsuback(packet_identifier: Option<u16>, reason_codes: Vec<ReasonCode>) -> (r: Self)
        ensures
            r.fixed_header@ == spec_plain_header(ControlPacketType::UNSUBACK, spec_zero_flags()),
            r.variable_header is Some,
            r.variable_header->0@ == (VariableHeaderModel {
                protocol_name: None,
                protocol_version: None,
                connect_flags: None,
                keep_alive: None,
                connect_acknowledge_flags: None,
                reason_code: None,
                properties: Seq::<PropertyModel>::empty(),
                packet_identifier,
                topic_name: None,
            }),
            r.payload is Some,
            r.payload->0 == (Payload {
                client_id: None,
                will_properties: None,
                will_topic: None,
                will_payload: None,
                username: None,
                password: None,
                topic_filters: None,
                reason_codes: Some(reason_codes),
                data: None,
            }),
    {
        let payload = Payload::from_sub_unsub_ack(Some(reason_codes));
        let variable_header = VariableHeader::from_suback(packet_identifier, Vec::new());
        let fixed_header = FixedHeader::new(ControlPacketType::UNSUBACK, vec![false, false, false, false], 0);
        let r = ControlPacket::new(fixed_header, Some(variable_header), Some(payload));
        proof {
            assert(r.variable_header->0@.properties =~= Seq::<PropertyModel>::empty());
        }
        r
    }

    pub fn publish(
        packet_identifier: Option<u16>,
        topic_name: Option<String>,
        dup_flag: bool,
        qos_level: QoSLevel,
        retain: bool,
    ) -> (r: Self)
        ensures
            r.fixed_header@ == (FixedHeaderModel {
                packet_type: ControlPacketType::PUBLISH,
                control_flags: None,
                remaining_length: u64::MAX,
                dup_flag: Some(dup_flag),
                qos_level: Some(qos_level),
                retain: Some(retain),
            }),
            r.variable_header is Some,
            r.variable_header->0@ == (VariableHeaderModel {
                protocol_name: None,
                protocol_version: None,
                connect_flags: None,
                keep_alive: None,
                connect_acknowledge_flags: None,
                reason_code: None,
                properties: Seq::<PropertyModel>::empty(),
                packet_identifier,
                topic_name: match topic_name {
                    Some(t) => Some(t@),
                    None => None,
                },
            }),
            r.payload is None,
    {
        let fixed_header = FixedHeader::from_publish(dup_flag, qos_level, retain, u64::MAX);
        let variable_header = VariableHeader::from_publish(packet_identifier, topic_name, Vec::new());
        let r = ControlPacket::new(fixed_header, Some(variable_header), None);
        proof {
            assert(r.variable_header->0@.properties =~= Seq::<PropertyModel>::empty());
        }
        r
    }

    pub fn puback(packet_identifier: Option<u16>) -> (r: Self)
        ensures
            r@ == spec_ack_packet(ControlPacketType::PUBACK, spec_zero_flags(), packet_identifier),
    {
        let fixed_header = FixedHeader::new(ControlPacketType::PUBACK, vec![false, false, false, false], 0);
        let variable_header = VariableHeader::from_pub_ack_rel_comp(packet_identifier, Some(ReasonCode::Success), Vec::new());
        let r = ControlPacket::new(fixed_header, Some(variable_header), None);
        proof {
            assert(r.variable_header->0@.properties =~= Seq::<PropertyModel>::empty());
        }
        r
    }

    pub fn pubrec(packet_identifier: Option<u16>) -> (r: Self)
        ensures
            r@ == spec_ack_packet(ControlPacketType::PUBREC, spec_zero_flags(), packet_identifier),
    {
        let fixed_header = FixedHeader::new(ControlPacketType::PUBREC, vec![false, false, false, false], 0);
        let variable_header = VariableHeader::from_pub_ack_rel_comp(packet_identifier, Some(ReasonCode::Success), Vec::new());
        let r = ControlPacket::new(fixed_header, Some(variable_header), None);
        proof {
            assert(r.variable_header->0@.properties =~= Seq::<PropertyModel>::empty());
        }
        r
    }

    /// The PUBREL flag nibble is `0010`, as the protocol fixes for this type.
    pub fn pubrel(packet_identifier: Option<u16>) -> (r: Self)
        ensures
            r@ == spec_ack_packet(ControlPacketType::PUBREL, seq![false, false, true, false], packet_identifier),
    {
        let fixed_header = FixedHeader::new(ControlPacketType::PUBREL, vec![false, false, true, false], 0);
        let variable_header = VariableHeader::from_pub_ack_rel_comp(packet_identifier, Some(ReasonCode::Success), Vec::new());
        let r = ControlPacket::new(fixed_header, Some(variable_header), None);
        proof {
            assert(r.variable_header->0@.properties =~= Seq::<PropertyModel>::empty());
        }
        r
    }

    pub fn pubcomp(packet_identifier: Option<u16>) -> (r: Self)
        ensures
            r@ == spec_ack_packet(ControlPacketType::PUBCOMP, spec_zero_flags(), packet_identifier),
    {
        let fixed_header = FixedHeader::new(ControlPacketType::PUBCOMP, vec![false, false, false, false], 0);
        let variable_header = VariableHeader::from_pub_ack_rel_comp(packet_identifier, Some(ReasonCode::Success), Vec::new());
        let r = ControlPacket::new(fixed_header, Some(variable_header), None);
        proof {
            assert(r.variable_header->0@.properties =~= Seq::<PropertyModel>::empty());
        }
        r
    }

    pub fn pingresp() -> (r: Self)
        ensures
            r@ == (ControlPacketModel {
                fixed_header: spec_plain_header(ControlPacketType::PINGRESP, spec_zero_flags()),
                variable_header: None,
                payload: None,
            }),
    {
        let fixed_header = FixedHeader::new(ControlPacketType::PINGRESP, vec![false, false, false, false], 0);
        ControlPacket::new(fixed_header, None, None)
    }

    pub fn disconnect(reason_code: ReasonCode) -> (r: Self)
        ensures
            r@ == (ControlPacketModel {
                fixed_header: spec_plain_header(ControlPacketType::DISCONNECT, spec_zero_flags()),
                variable_header: Some(VariableHeaderModel {
                    protocol_name: None,
                    protocol_version: None,
                    connect_flags: None,
                    keep_alive: None,
                    connect_acknowledge_flags: None,
                    reason_code: Some(reason_code),
                    properties: Seq::<PropertyModel>::empty(),
                    packet_identifier: None,
                    topic_name: None,
                }),
                payload: None,
            }),
    {
        let fixed_header = FixedHeader::new(ControlPacketType::DISCONNECT, vec![false, false, false, false], 0);
        let variable_header = VariableHeader::from_disconnect(reason_code, Vec::new());
        let r = ControlPacket::new(fixed_header, Some(variable_header), None);
        proof {
            assert(r.variable_header->0@.properties =~= Seq::<PropertyModel>::empty());
        }
        r
    }
}

} // verus!
