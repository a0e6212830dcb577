use vstd::prelude::*;

verus! {

/// MQTT 5 reason code.  Several codes share the byte value `0x00`
/// (`Success`, `NormalDisconnection`, `GrantedQoS0`); decoding a zero byte
/// yields `Success`, and the packet type of the surrounding packet gives the
/// intended meaning.
#[derive(Debug, Clone, Copy, PartialEq, Eq, Structural)]
pub enum ReasonCode {
    Success,
    NormalDisconnection,
    GrantedQoS0,
    GrantedQoS1,
    GrantedQoS2,
    DisconnectWithWillMessage,
    NoMatchingSubscribers,
    NoSubscriptionExisted,
    ContinueAuthentication,
    ReAuthenticate,
    UnspecifiedError,
    MalformedPacket,
    ProtocolError,
    ImplementationSpecificError,
    UnsupportedProtocolVersion,
    ClientIdentifierNotValid,
    BadUsernameOrPassword,
    NotAuthorized,
    ServerUnavailable,
    ServerBusy,
    Banned,
    ServerShuttingDown,
    BadAuthenticationMethod,
    KeepAliveTimeout,
    SessionTakenOver,
    TopicFilterInvalid,
    TopicNameInvalid,
    PacketIdentifierInUse,
    PacketIdentifierNotFound,
    ReceiveMaximumExceeded,
    TopicAliasInvalid,
    PacketTooLarge,
    MessageRateTooHigh,
    QuotaExceeded,
    AdministrativeAction,
    PayloadFormatInvalid,
    RetainNotSupported,
    QoSNotSupported,
    UseAnotherServer,
    ServerMoved,
    SharedSubscriptionsNotSupported,
    ConnectionRateExceeded,
    MaximumConnectTime,
    SubscriptionIdentifiersNotSupported,
    WildcardSubscriptionsNotSupported,
}

/// Byte value of a reason code on the wire.
pub open spec fn spec_reason_as_u8(rc: ReasonCode) -> u8 {
    match rc {
        ReasonCode::Success => 0x00,
        ReasonCode::NormalDisconnection => 0x00,
        ReasonCode::GrantedQoS0 => 0x00,
        ReasonCode::GrantedQoS1 => 0x01,
        ReasonCode::GrantedQoS2 => 0x02,
        ReasonCode::DisconnectWithWillMessage => 0x04,
        ReasonCode::NoMatchingSubscribers => 0x10,
        ReasonCode::NoSubscriptionExisted => 0x11,
        ReasonCode::ContinueAuthentication => 0x18,
        ReasonCode::ReAuthenticate => 0x19,
        ReasonCode::UnspecifiedError => 0x80,
        ReasonCode::MalformedPacket => 0x81,
        ReasonCode::ProtocolError => 0x82,
        ReasonCode::ImplementationSpecificError => 0x83,
        ReasonCode::UnsupportedProtocolVersion => 0x84,
        ReasonCode::ClientIdentifierNotValid => 0x85,
        ReasonCode::BadUsernameOrPassword => 0x86,
        ReasonCode::NotAuthorized => 0x87,
        ReasonCode::ServerUnavailable => 0x88,
        ReasonCode::ServerBusy => 0x89,
        ReasonCode::Banned => 0x8A,
        ReasonCode::ServerShuttingDown => 0x8B,
        ReasonCode::BadAuthenticationMethod => 0x8C,
        ReasonCode::KeepAliveTimeout => 0x8D,
        ReasonCode::SessionTakenOver => 0x8E,
        ReasonCode::TopicFilterInvalid => 0x8F,
        ReasonCode::TopicNameInvalid => 0x90,
        ReasonCode::PacketIdentifierInUse => 0x91,
        ReasonCode::PacketIdentifierNotFound => 0x92,
        ReasonCode::ReceiveMaximumExceeded => 0x93,
        ReasonCode::TopicAliasInvalid => 0x94,
        ReasonCode::PacketTooLarge => 0x95,
        ReasonCode::MessageRateTooHigh => 0x96,
        ReasonCode::QuotaExceeded => 0x97,
        ReasonCode::AdministrativeAction => 0x98,
        ReasonCode::PayloadFormatInvalid => 0x99,
        ReasonCode::RetainNotSupported => 0x9A,
        ReasonCode::QoSNotSupported => 0x9B,
        ReasonCode::UseAnotherServer => 0x9C,
        ReasonCode::ServerMoved => 0x9D,
        ReasonCode::SharedSubscriptionsNotSupported => 0x9E,
        ReasonCode::ConnectionRateExceeded => 0x9F,
        ReasonCode::MaximumConnectTime => 0xA0,
        ReasonCode::SubscriptionIdentifiersNotSupported => 0xA1,
        ReasonCode::WildcardSubscriptionsNotSupported => 0xA2,
    }
}

/// Reason code denoted by a wire byte, if any; a zero byte reads as `Success`.
pub open spec fn spec_reason_from_u8(value: u8) -> Option<ReasonCode> {
    if value == 0x00 {
        Some(ReasonCode::Success)
    } else if value == 0x01 {
        Some(ReasonCode::GrantedQoS1)
    } else if value == 0x02 {
        Some(ReasonCode::GrantedQoS2)
    } else if value == 0x04 {
        Some(ReasonCode::DisconnectWithWillMessage)
    } else if value == 0x10 {
        Some(ReasonCode::NoMatchingSubscribers)
    } else if value == 0x11 {
        Some(ReasonCode::NoSubscriptionExisted)
    } else if value == 0x18 {
        Some(ReasonCode::ContinueAuthentication)
    } else if value == 0x19 {
        Some(ReasonCode::ReAuthenticate)
    } else if value == 0x80 {
        Some(ReasonCode::UnspecifiedError)
    } else if value == 0x81 {
        Some(ReasonCode::MalformedPacket)
    } else if value == 0x82 {
        Some(ReasonCode::ProtocolError)
    } else if value == 0x83 {
        Some(ReasonCode::ImplementationSpecificError)
    } else if value == 0x84 {
        Some(ReasonCode::UnsupportedProtocolVersion)
    } else if value == 0x85 {
        Some(ReasonCode::ClientIdentifierNotValid)
    } else if value == 0x86 {
        Some(ReasonCode::BadUsernameOrPassword)
    } else if value == 0x87 {
        Some(ReasonCode::NotAuthorized)
    } else if value == 0x88 {
        Some(ReasonCode::ServerUnavailable)
    } else if value == 0x89 {
        Some(ReasonCode::ServerBusy)
    } else if value == 0x8A {
        Some(ReasonCode::Banned)
    } else if value == 0x8B {
        Some(ReasonCode::ServerShuttingDown)
    } else if value == 0x8C {
        Some(ReasonCode::BadAuthenticationMethod)
    } else if value == 0x8D {
        Some(ReasonCode::KeepAliveTimeout)
    } else if value == 0x8E {
        Some(ReasonCode::SessionTakenOver)
    } else if value == 0x8F {
        Some(ReasonCode::TopicFilterInvalid)
    } else if value == 0x90 {
        Some(ReasonCode::TopicNameInvalid)
    } else if value == 0x91 {
        Some(ReasonCode::PacketIdentifierInUse)
    } else if value == 0x92 {
        Some(ReasonCode::PacketIdentifierNotFound)
    } else if value == 0x93 {
        Some(ReasonCode::ReceiveMaximumExceeded)
    } else if value == 0x94 {
        Some(ReasonCode::TopicAliasInvalid)
    } else if value == 0x95 {
        Some(ReasonCode::PacketTooLarge)
    } else if value == 0x96 {
        Some(ReasonCode::MessageRateTooHigh)
    } else if value == 0x97 {
        Some(ReasonCode::QuotaExceeded)
    } else if value == 0x98 {
        Some(ReasonCode::AdministrativeAction)
    } else if value == 0x99 {
        Some(ReasonCode::PayloadFormatInvalid)
    } else if value == 0x9A {
        Some(ReasonCode::RetainNotSupported)
    } else if value == 0x9B {
        Some(ReasonCode::QoSNotSupported)
    } else if value == 0x9C {
        Some(ReasonCode::UseAnotherServer)
    } else if value == 0x9D {
        Some(ReasonCode::ServerMoved)
    } else if value == 0x9E {
        Some(ReasonCode::SharedSubscriptionsNotSupported)
    } else if value == 0x9F {
        Some(ReasonCode::ConnectionRateExceeded)
    } else if value == 0xA0 {
        Some(ReasonCode::MaximumConnectTime)
    } else if value == 0xA1 {
        Some(ReasonCode::SubscriptionIdentifiersNotSupported)
    } else if value == 0xA2 {
        Some(ReasonCode::WildcardSubscriptionsNotSupported)
    } else {
        None
    }
}

impl ReasonCode {
    pub fn as_u8(&self) -> (r: u8)
        ensures
            r == spec_reason_as_u8(*self),
    {
        match self {
            ReasonCode::Success => 0x00,
            ReasonCode::NormalDisconnection => 0x00,
            ReasonCode::GrantedQoS0 => 0x00,
            ReasonCode::GrantedQoS1 => 0x01,
            ReasonCode::GrantedQoS2 => 0x02,
            ReasonCode::DisconnectWithWillMessage => 0x04,
            ReasonCode::NoMatchingSubscribers => 0x10,
            ReasonCode::NoSubscriptionExisted => 0x11,
            ReasonCode::ContinueAuthentication => 0x18,
            ReasonCode::ReAuthenticate => 0x19,
            ReasonCode::UnspecifiedError => 0x80,
            ReasonCode::MalformedPacket => 0x81,
            ReasonCode::ProtocolError => 0x82,
            ReasonCode::ImplementationSpecificError => 0x83,
            ReasonCode::UnsupportedProtocolVersion => 0x84,
            ReasonCode::ClientIdentifierNotValid => 0x85,
            ReasonCode::BadUsernameOrPassword => 0x86,
            ReasonCode::NotAuthorized => 0x87,
            ReasonCode::ServerUnavailable => 0x88,
            ReasonCode::ServerBusy => 0x89,
            ReasonCode::Banned => 0x8A,
            ReasonCode::ServerShuttingDown => 0x8B,
            ReasonCode::BadAuthenticationMethod => 0x8C,
            ReasonCode::KeepAliveTimeout => 0x8D,
            ReasonCode::SessionTakenOver => 0x8E,
            ReasonCode::TopicFilterInvalid => 0x8F,
            ReasonCode::TopicNameInvalid => 0x90,
            ReasonCode::PacketIdentifierInUse => 0x91,
            ReasonCode::PacketIdentifierNotFound => 0x92,
            ReasonCode::ReceiveMaximumExceeded => 0x93,
            ReasonCode::TopicAliasInvalid => 0x94,
            ReasonCode::PacketTooLarge => 0x95,
            ReasonCode::MessageRateTooHigh => 0x96,
            ReasonCode::QuotaExceeded => 0x97,
            ReasonCode::AdministrativeAction => 0x98,
            ReasonCode::PayloadFormatInvalid => 0x99,
            ReasonCode::RetainNotSupported => 0x9A,
            ReasonCode::QoSNotSupported => 0x9B,
            ReasonCode::UseAnotherServer => 0x9C,
            ReasonCode::ServerMoved => 0x9D,
            ReasonCode::SharedSubscriptionsNotSupported => 0x9E,
            ReasonCode::ConnectionRateExceeded => 0x9F,
            ReasonCode::MaximumConnectTime => 0xA0,
            ReasonCode::SubscriptionIdentifiersNotSupported => 0xA1,
            ReasonCode::WildcardSubscriptionsNotSupported => 0xA2,
        }
    }

    pub fn from_u8(value: u8) -> (r: Option<ReasonCode>)
        ensures
            r == spec_reason_from_u8(value),
    {
        match value {
            0x00u8 => Some(ReasonCode::Success),
            0x01u8 => Some(ReasonCode::GrantedQoS1),
            0x02u8 => Some(ReasonCode::GrantedQoS2),
            0x04u8 => Some(ReasonCode::DisconnectWithWillMessage),
            0x10u8 => Some(ReasonCode::NoMatchingSubscribers),
            0x11u8 => Some(ReasonCode::NoSubscriptionExisted),
            0x18u8 => Some(ReasonCode::ContinueAuthentication),
            0x19u8 => Some(ReasonCode::ReAuthenticate),
            0x80u8 => Some(ReasonCode::UnspecifiedError),
            0x81u8 => Some(ReasonCode::MalformedPacket),
            0x82u8 => Some(ReasonCode::ProtocolError),
            0x83u8 => Some(ReasonCode::ImplementationSpecificError),
            0x84u8 => Some(ReasonCode::UnsupportedProtocolVersion),
            0x85u8 => Some(ReasonCode::ClientIdentifierNotValid),
            0x86u8 => Some(ReasonCode::BadUsernameOrPassword),
            0x87u8 => Some(ReasonCode::NotAuthorized),
            0x88u8 => Some(ReasonCode::ServerUnavailable),
            0x89u8 => Some(ReasonCode::ServerBusy),
            0x8Au8 => Some(ReasonCode::Banned),
            0x8Bu8 => Some(ReasonCode::ServerShuttingDown),
            0x8Cu8 => Some(ReasonCode::BadAuthenticationMethod),
            0x8Du8 => Some(ReasonCode::KeepAliveTimeout),
            0x8Eu8 => Some(ReasonCode::SessionTakenOver),
            0x8Fu8 => Some(ReasonCode::TopicFilterInvalid),
            0x90u8 => Some(ReasonCode::TopicNameInvalid),
            0x91u8 => Some(ReasonCode::PacketIdentifierInUse),
            0x92u8 => Some(ReasonCode::PacketIdentifierNotFound),
            0x93u8 => Some(ReasonCode::ReceiveMaximumExceeded),
            0x94u8 => Some(ReasonCode::TopicAliasInvalid),
            0x95u8 => Some(ReasonCode::PacketTooLarge),
            0x96u8 => Some(ReasonCode::MessageRateTooHigh),
            0x97u8 => Some(ReasonCode::QuotaExceeded),
            0x98u8 => Some(ReasonCode::AdministrativeAction),
            0x99u8 => Some(ReasonCode::PayloadFormatInvalid),
            0x9Au8 => Some(ReasonCode::RetainNotSupported),
            0x9Bu8 => Some(ReasonCode::QoSNotSupported),
            0x9Cu8 => Some(ReasonCode::UseAnotherServer),
            0x9Du8 => Some(ReasonCode::ServerMoved),
            0x9Eu8 => Some(ReasonCode::SharedSubscriptionsNotSupported),
            0x9Fu8 => Some(ReasonCode::ConnectionRateExceeded),
            0xA0u8 => Some(ReasonCode::MaximumConnectTime),
            0xA1u8 => Some(ReasonCode::SubscriptionIdentifiersNotSupported),
            0xA2u8 => Some(ReasonCode::WildcardSubscriptionsNotSupported),
            _ => None,
        }
    }
}

} // verus!
