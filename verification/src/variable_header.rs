use vstd::prelude::*;
use crate::qos_level::QoSLevel;
use crate::vec_util::clone_bytes;
use crate::reason_code::ReasonCode;

verus! {

/// CONNECT flag byte, one field per bit (will_qos takes two bits).
#[derive(Debug, Clone, Copy, PartialEq, Eq, Structural)]
pub struct ConnectFlags {
    pub username_flag: bool,
    pub password_flag: bool,
    pub will_retain_flag: bool,
    pub will_qos: QoSLevel,
    pub will_flag: bool,
    pub clean_start_flag: bool,
    pub reserved_flag: bool,
}

impl ConnectFlags {
    pub fn new(
        username_flag: bool,
        password_flag: bool,
        will_retain_flag: bool,
        will_qos: QoSLevel,
        will_flag: bool,
        clean_start_flag: bool,
        reserved_flag: bool,
    ) -> (r: Self)
        ensures
            r == (ConnectFlags {
                username_flag,
                password_flag,
                will_retain_flag,
                will_qos,
                will_flag,
                clean_start_flag,
                reserved_flag,
            }),
    {
        ConnectFlags { username_flag, password_flag, will_retain_flag, will_qos, will_flag, clean_start_flag, reserved_flag }
    }

    pub fn username_flag(&self) -> (r: bool)
        ensures
            r == self.username_flag,
    {
        self.username_flag
    }

    pub fn password_flag(&self) -> (r: bool)
        ensures
            r == self.password_flag,
    {
        self.password_flag
    }

    pub fn will_retain_flag(&self) -> (r: bool)
        ensures
            r == self.will_retain_flag,
    {
        self.will_retain_flag
    }

    pub fn will_qos(&self) -> (r: QoSLevel)
        ensures
            r == self.will_qos,
    {
        self.will_qos
    }

    pub fn will_flag(&self) -> (r: bool)
        ensures
            r == self.will_flag,
    {
        self.will_flag
    }

    pub fn clean_start_flag(&self) -> (r: bool)
        ensures
            r == self.clean_start_flag,
    {
        self.clean_start_flag
    }

    pub fn reserved_flag(&self) -> (r: bool)
        ensures
            r == self.reserved_flag,
    {
        self.reserved_flag
    }
}

/// CONNACK acknowledge-flag byte; only bit 0 (session present) is defined.
#[derive(Debug, Clone, Copy, PartialEq, Eq, Structural)]
pub struct ConnectAcknowledgeFlags {
    pub session_present: bool,
}

impl ConnectAcknowledgeFlags {
    pub fn new(session_present: bool) -> (r: Self)
        ensures
            r == (ConnectAcknowledgeFlags { session_present }),
    {
        ConnectAcknowledgeFlags { session_present }
    }

    pub fn session_present(&self) -> (r: bool)
        ensures
            r == self.session_present,
    {
        self.session_present
    }
}

/// Mathematical value of a property, strings and byte blobs as sequences.
#[verifier::ext_equal]
pub enum PropertyModel {
    PayloadFormatIndicator(u8),
    MessageExpiryInterval(u32),
    ContentType(Seq<char>),
    ResponseTopic(Seq<char>),
    CorrelationData(Seq<u8>),
    SubscriptionIdentifier(u64),
    SessionExpiryInterval(u32),
    AssignedClientIdentifier(Seq<char>),
    ServerKeepAlive(u16),
    AuthenticationMethod(Seq<char>),
    AuthenticationData(Seq<u8>),
    RequestProblemInformation(u8),
    WillDelayInterval(u32),
    RequestResponseInformation(u8),
    ResponseInformation(Seq<char>),
    ServerReference(Seq<char>),
    ReasonString(Seq<char>),
    ReceiveMaximum(u16),
    TopicAliasMaximum(u16),
    TopicAlias(u16),
    MaximumQoS(u8),
    RetainAvailable(u8),
    UserProperty(Seq<char>, Seq<char>),
    MaximumPacketSize(u32),
    WildcardSubscriptionAvailable(u8),
    SubscriptionIdentifierAvailable(u8),
    SharedSubscriptionAvailable(u8),
}

/// One MQTT 5 property, tagged by identifier.
#[derive(Debug, PartialEq, Eq)]
pub enum Property {
    PayloadFormatIndicator(u8),
    MessageExpiryInterval(u32),
    ContentType(String),
    ResponseTopic(String),
    CorrelationData(Vec<u8>),
    SubscriptionIdentifier(u64),
    SessionExpiryInterval(u32),
    AssignedClientIdentifier(String),
    ServerKeepAlive(u16),
    AuthenticationMethod(String),
    AuthenticationData(Vec<u8>),
    RequestProblemInformation(u8),
    WillDelayInterval(u32),
    RequestResponseInformation(u8),
    ResponseInformation(String),
    ServerReference(String),
    ReasonString(String),
    ReceiveMaximum(u16),
    TopicAliasMaximum(u16),
    TopicAlias(u16),
    MaximumQoS(u8),
    RetainAvailable(u8),
    UserProperty(String, String),
    MaximumPacketSize(u32),
    WildcardSubscriptionAvailable(u8),
    SubscriptionIdentifierAvailable(u8),
    SharedSubscriptionAvailable(u8),
}

impl View for Property {
    type V = PropertyModel;

    open spec fn view(&self) -> PropertyModel {
        match self {
            Property::PayloadFormatIndicator(v) => PropertyModel::PayloadFormatIndicator(*v),
            Property::MessageExpiryInterval(v) => PropertyModel::MessageExpiryInterval(*v),
            Property::ContentType(v) => PropertyModel::ContentType(v@),
            Property::ResponseTopic(v) => PropertyModel::ResponseTopic(v@),
            Property::CorrelationData(v) => PropertyModel::CorrelationData(v@),
            Property::SubscriptionIdentifier(v) => PropertyModel::SubscriptionIdentifier(*v),
            Property::SessionExpiryInterval(v) => PropertyModel::SessionExpiryInterval(*v),
            Property::AssignedClientIdentifier(v) => PropertyModel::AssignedClientIdentifier(v@),
            Property::ServerKeepAlive(v) => PropertyModel::ServerKeepAlive(*v),
            Property::AuthenticationMethod(v) => PropertyModel::AuthenticationMethod(v@),
            Property::AuthenticationData(v) => PropertyModel::AuthenticationData(v@),
            Property::RequestProblemInformation(v) => PropertyModel::RequestProblemInformation(*v),
            Property::WillDelayInterval(v) => PropertyModel::WillDelayInterval(*v),
            Property::RequestResponseInformation(v) => PropertyModel::RequestResponseInformation(*v),
            Property::ResponseInformation(v) => PropertyModel::ResponseInformation(v@),
            Property::ServerReference(v) => PropertyModel::ServerReference(v@),
            Property::ReasonString(v) => PropertyModel::ReasonString(v@),
            Property::ReceiveMaximum(v) => PropertyModel::ReceiveMaximum(*v),
            Property::TopicAliasMaximum(v) => PropertyModel::TopicAliasMaximum(*v),
            Property::TopicAlias(v) => PropertyModel::TopicAlias(*v),
            Property::MaximumQoS(v) => PropertyModel::MaximumQoS(*v),
            Property::RetainAvailable(v) => PropertyModel::RetainAvailable(*v),
            Property::UserProperty(k, v) => PropertyModel::UserProperty(k@, v@),
            Property::MaximumPacketSize(v) => PropertyModel::MaximumPacketSize(*v),
            Property::WildcardSubscriptionAvailable(v) => PropertyModel::WildcardSubscriptionAvailable(*v),
            Property::SubscriptionIdentifierAvailable(v) => PropertyModel::SubscriptionIdentifierAvailable(*v),
            Property::SharedSubscriptionAvailable(v) => PropertyModel::SharedSubscriptionAvailable(*v),
        }
    }
}


impl Clone for Property {
    /// A clone denotes the same property.
    fn clone(&self) -> (r: Self)
        ensures
            r@ == self@,
    {
        match self {
            Property::PayloadFormatIndicator(v) => Property::PayloadFormatIndicator(*v),
            Property::MessageExpiryInterval(v) => Property::MessageExpiryInterval(*v),
            Property::ContentType(v) => Property::ContentType(v.clone()),
            Property::ResponseTopic(v) => Property::ResponseTopic(v.clone()),
            Property::CorrelationData(v) => Property::CorrelationData(clone_bytes(v)),
            Property::SubscriptionIdentifier(v) => Property::SubscriptionIdentifier(*v),
            Property::SessionExpiryInterval(v) => Property::SessionExpiryInterval(*v),
            Property::AssignedClientIdentifier(v) => Property::AssignedClientIdentifier(v.clone()),
            Property::ServerKeepAlive(v) => Property::ServerKeepAlive(*v),
            Property::AuthenticationMethod(v) => Property::AuthenticationMethod(v.clone()),
            Property::AuthenticationData(v) => Property::AuthenticationData(clone_bytes(v)),
            Property::RequestProblemInformation(v) => Property::RequestProblemInformation(*v),
            Property::WillDelayInterval(v) => Property::WillDelayInterval(*v),
            Property::RequestResponseInformation(v) => Property::RequestResponseInformation(*v),
            Property::ResponseInformation(v) => Property::ResponseInformation(v.clone()),
            Property::ServerReference(v) => Property::ServerReference(v.clone()),
            Property::ReasonString(v) => Property::ReasonString(v.clone()),
            Property::ReceiveMaximum(v) => Property::ReceiveMaximum(*v),
            Property::TopicAliasMaximum(v) => Property::TopicAliasMaximum(*v),
            Property::TopicAlias(v) => Property::TopicAlias(*v),
            Property::MaximumQoS(v) => Property::MaximumQoS(*v),
            Property::RetainAvailable(v) => Property::RetainAvailable(*v),
            Property::UserProperty(k, v) => Property::UserProperty(k.clone(), v.clone()),
            Property::MaximumPacketSize(v) => Property::MaximumPacketSize(*v),
            Property::WildcardSubscriptionAvailable(v) => Property::WildcardSubscriptionAvailable(*v),
            Property::SubscriptionIdentifierAvailable(v) => Property::SubscriptionIdentifierAvailable(*v),
            Property::SharedSubscriptionAvailable(v) => Property::SharedSubscriptionAvailable(*v),
        }
    }
}

/// Copy of a property list, entry by entry.
pub fn clone_properties(v: &Vec<Property>) -> (r: Vec<Property>)
    ensures
        r@.len() == v@.len(),
        forall|i: int| 0 <= i < v@.len() ==> #[trigger] r@[i]@ == v@[i]@,
{
    let mut out: Vec<Property> = Vec::new();
    let mut i: usize = 0;
    while i < v.len()
        invariant
            i <= v@.len(),
            out@.len() == i,
            forall|j: int| 0 <= j < i ==> #[trigger] out@[j]@ == v@[j]@,
        decreases v@.len() - i,
    {
        out.push(v[i].clone());
        i = i + 1;
    }
    out
}

/// Mathematical value of a variable header.
#[verifier::ext_equal]
pub struct VariableHeaderModel {
    pub protocol_name: Option<Seq<char>>,
    pub protocol_version: Option<u8>,
    pub connect_flags: Option<ConnectFlags>,
    pub keep_alive: Option<u16>,
    pub connect_acknowledge_flags: Option<ConnectAcknowledgeFlags>,
    pub reason_code: Option<ReasonCode>,
    pub properties: Seq<PropertyModel>,
    pub packet_identifier: Option<u16>,
    pub topic_name: Option<Seq<char>>,
}

/// Variable header of a packet; which fields are populated depends on the
/// packet type, so every field is optional but the property list.
#[derive(Debug)]
pub struct VariableHeader {
    pub protocol_name: Option<String>,
    pub protocol_version: Option<u8>,
    pub connect_flags: Option<ConnectFlags>,
    pub keep_alive: Option<u16>,
    pub connect_acknowledge_flags: Option<ConnectAcknowledgeFlags>,
    pub reason_code: Option<ReasonCode>,
    pub properties: Vec<Property>,
    pub packet_identifier: Option<u16>,
    pub topic_name: Option<String>,
}

impl View for VariableHeader {
    type V = VariableHeaderModel;

    open spec fn view(&self) -> VariableHeaderModel {
        VariableHeaderModel {
            protocol_name: match self.protocol_name {
                Some(s) => Some(s@),
                None => None,
            },
            protocol_version: self.protocol_version,
            connect_flags: self.connect_flags,
            keep_alive: self.keep_alive,
            connect_acknowledge_flags: self.connect_acknowledge_flags,
            reason_code: self.reason_code,
            properties: Seq::new(self.properties@.len(), |i: int| self.properties@[i]@),
            packet_identifier: self.packet_identifier,
            topic_name: match self.topic_name {
                Some(s) => Some(s@),
                None => None,
            },
        }
    }
}


impl Clone for VariableHeader {
    /// A clone denotes the same variable header.
    fn clone(&self) -> (r: Self)
        ensures
            r@ == self@,
    {
        let r = VariableHeader {
            protocol_name: match &self.protocol_name {
                Some(s) => Some(s.clone()),
                None => None,
            },
            protocol_version: self.protocol_version,
            connect_flags: self.connect_flags,
            keep_alive: self.keep_alive,
            connect_acknowledge_flags: self.connect_acknowledge_flags,
            reason_code: self.reason_code,
            properties: clone_properties(&self.properties),
            packet_identifier: self.packet_identifier,
            topic_name: match &self.topic_name {
                Some(s) => Some(s.clone()),
                None => None,
            },
        };
        proof {
            assert(r@.properties =~= self@.properties);
            assert(r@ =~~= self@);
        }
        r
    }
}

impl VariableHeader {
    pub fn from_connect(
        protocol_name: Option<String>,
        protocol_version: Option<u8>,
        connect_flags: Option<ConnectFlags>,
        keep_alive: Option<u16>,
        properties: Vec<Property>,
    ) -> (r: Self)
        ensures
            r == (VariableHeader {
                protocol_name,
                protocol_version,
                connect_flags,
                keep_alive,
                connect_acknowledge_flags: None,
                reason_code: None,
                properties,
                packet_identifier: None,
                topic_name: None,
            }),
    {
        VariableHeader {
            protocol_name,
            protocol_version,
            connect_flags,
            keep_alive,
            connect_acknowledge_flags: None,
            reason_code: None,
            properties,
            packet_identifier: None,
            topic_name: None,
        }
    }

    pub fn from_disconnect(reason_code: ReasonCode, properties: Vec<Property>) -> (r: Self)
        ensures
            r == (VariableHeader {
                protocol_name: None,
                protocol_version: None,
                connect_flags: None,
                keep_alive: None,
                connect_acknowledge_flags: None,
                reason_code: Some(reason_code),
                properties,
                packet_identifier: None,
                topic_name: None,
            }),
    {
        VariableHeader {
            protocol_name: None,
            protocol_version: None,
            connect_flags: None,
            keep_alive: None,
            connect_acknowledge_flags: None,
            reason_code: Some(reason_code),
            properties,
            packet_identifier: None,
            topic_name: None,
        }
    }

    pub fn from_connack(
        connect_acknowledge_flags: ConnectAcknowledgeFlags,
        connect_reason_code: ReasonCode,
        properties: Vec<Property>,
    ) -> (r: Self)
        ensures
            r == (VariableHeader {
                protocol_name: None,
                protocol_version: None,
                connect_flags: None,
                keep_alive: None,
                connect_acknowledge_flags: Some(connect_acknowledge_flags),
                reason_code: Some(connect_reason_code),
                properties,
                packet_identifier: None,
                topic_name: None,
            }),
    {
        VariableHeader {
            protocol_name: None,
            protocol_version: None,
            connect_flags: None,
            keep_alive: None,
            connect_acknowledge_flags: Some(connect_acknowledge_flags),
            reason_code: Some(connect_reason_code),
            properties,
            packet_identifier: None,
            topic_name: None,
        }
    }

    pub fn from_sub_unsub(packet_identifier: Option<u16>, properties: Vec<Property>) -> (r: Self)
        ensures
            r == (VariableHeader {
                protocol_name: None,
                protocol_version: None,
                connect_flags: None,
                keep_alive: None,
                connect_acknowledge_flags: None,
                reason_code: None,
                properties,
                packet_identifier,
                topic_name: None,
            }),
    {
        VariableHeader {
            protocol_name: None,
            protocol_version: None,
            connect_flags: None,
            keep_alive: None,
            connect_acknowledge_flags: None,
            reason_code: None,
            properties,
            packet_identifier,
            topic_name: None,
        }
    }

    pub fn from_suback(packet_identifier: Option<u16>, properties: Vec<Property>) -> (r: Self)
        ensures
            r == (VariableHeader {
                protocol_name: None,
                protocol_version: None,
                connect_flags: None,
                keep_alive: None,
                connect_acknowledge_flags: None,
                reason_code: None,
                properties,
                packet_identifier,
                topic_name: None,
            }),
    {
        VariableHeader {
            protocol_name: None,
            protocol_version: None,
            connect_flags: None,
            keep_alive: None,
            connect_acknowledge_flags: None,
            reason_code: None,
            properties,
            packet_identifier,
            topic_name: None,
        }
    }

    pub fn from_publish(packet_identifier: Option<u16>, topic_name: Option<String>, properties: Vec<Property>) -> (r: Self)
        ensures
            r == (VariableHeader {
                protocol_name: None,
                protocol_version: None,
                connect_flags: None,
                keep_alive: None,
                connect_acknowledge_flags: None,
                reason_code: None,
                properties,
                packet_identifier,
                topic_name,
            }),
    {
        VariableHeader {
            protocol_name: None,
            protocol_version: None,
            connect_flags: None,
            keep_alive: None,
            connect_acknowledge_flags: None,
            reason_code: None,
            properties,
            packet_identifier,
            topic_name,
        }
    }

    pub fn from_pub_ack_rel_comp(
        packet_identifier: Option<u16>,
        reason_code: Option<ReasonCode>,
        properties: Vec<Property>,
    ) -> (r: Self)
        ensures
            r == (VariableHeader {
                protocol_name: None,
                protocol_version: None,
                connect_flags: None,
                keep_alive: None,
                connect_acknowledge_flags: None,
                reason_code,
                properties,
                packet_identifier,
                topic_name: None,
            }),
    {
        VariableHeader {
            protocol_name: None,
            protocol_version: None,
            connect_flags: None,
            keep_alive: None,
            connect_acknowledge_flags: None,
            reason_code,
            properties,
            packet_identifier,
            topic_name: None,
        }
    }

    pub fn protocol_name(&self) -> (r: &String)
        requires
            self.protocol_name is Some,
        ensures
            r@ == self@.protocol_name->0,
    {
        self.protocol_name.as_ref().unwrap()
    }

    pub fn protocol_version(&self) -> (r: u8)
        requires
            self.protocol_version is Some,
        ensures
            r == self.protocol_version->0,
    {
        self.protocol_version.unwrap()
    }

    pub fn connect_flags(&self) -> (r: &ConnectFlags)
        requires
            self.connect_flags is Some,
        ensures
            *r == self.connect_flags->0,
    {
        self.connect_flags.as_ref().unwrap()
    }

    pub fn keep_alive(&self) -> (r: u16)
        requires
            self.keep_alive is Some,
        ensures
            r == self.keep_alive->0,
    {
        self.keep_alive.unwrap()
    }

    pub fn connect_acknowledge_flags(&self) -> (r: &ConnectAcknowledgeFlags)
        requires
            self.connect_acknowledge_flags is Some,
        ensures
            *r == self.connect_acknowledge_flags->0,
    {
        self.connect_acknowledge_flags.as_ref().unwrap()
    }

    pub fn reason_code(&self) -> (r: Option<&ReasonCode>)
        ensures
            match r {
                Some(rc) => self.reason_code == Some(*rc),
                None => self.reason_code is None,
            },
    {
        self.reason_code.as_ref()
    }

    pub fn properties(&self) -> (r: &Vec<Property>)
        ensures
            r == &self.properties,
    {
        &self.properties
    }

    pub fn packet_identifier_opt(&self) -> (r: Option<u16>)
        ensures
            r == self.packet_identifier,
    {
        self.packet_identifier
    }

    pub fn packet_identifier(&self) -> (r: u16)
        requires
            self.packet_identifier is Some,
        ensures
            r == self.packet_identifier->0,
    {
        self.packet_identifier.unwrap()
    }

    pub fn topic_name(&self) -> (r: &String)
        requires
            self.topic_name is Some,
        ensures
            r@ == self@.topic_name->0,
    {
        self.topic_name.as_ref().unwrap()
    }
}

} // verus!
