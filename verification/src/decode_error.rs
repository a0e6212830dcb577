use vstd::prelude::*;

verus! {

/// Low-level cause of a decoding failure.  `ConnectionError` is reserved for
/// the connection layer: it marks the peer closing the stream before the
/// first byte of a fixed header, the normal end of a connection.
#[derive(Debug, Clone, Copy, PartialEq, Eq, Structural)]
pub enum ReadError {
    ConnectionError,
    NotEnoughData { position: u64, length: u64, requested: u64 },
    TooManyBitsForType { position: u64, requested: u8, allowed: u8 },
    ExceededMaxLength,
    ExceededMaxValue { current: u64, max: u64 },
    InvalidData,
    IOError,
}

/// A decoding failure: the field that failed, with its cause.
#[derive(Debug, Clone, Copy, PartialEq, Eq, Structural)]
pub enum DecodeError {
    VariableHeaderAndPayload { cause: ReadError },
    ConnectionTimedOut { cause: ReadError },
    VariableByteInteger { cause: ReadError },
    UTF8String { cause: ReadError },
    BinaryData { cause: ReadError },
    PacketType { cause: ReadError },
    RemainingLength { cause: ReadError },
    ProtocolName { cause: ReadError },
    ProtocolVersion { cause: ReadError },
    ConnectFlags { cause: ReadError },
    PropertyLength { cause: ReadError },
    UnknownProperty { cause: ReadError },
    KeepAlive { cause: ReadError },
    ClientId { cause: ReadError },
    Username { cause: ReadError },
    Password { cause: ReadError },
    WillProperties { cause: ReadError },
    WillTopic { cause: ReadError },
    WillPayload { cause: ReadError },
    ControlFlags { cause: ReadError },
    UsernameFlag { cause: ReadError },
    PasswordFlag { cause: ReadError },
    WillRetainFlag { cause: ReadError },
    WillQoSFlag { cause: ReadError },
    CleanStartFlag { cause: ReadError },
    WillFlag { cause: ReadError },
    ReservedFlag { cause: ReadError },
    Property { cause: ReadError },
    RetainHandling { cause: ReadError },
    MaximumQoS { cause: ReadError },
    TopicFilter { cause: ReadError },
    RetainAsPublished { cause: ReadError },
    NoLocal { cause: ReadError },
    PacketIdentifier { cause: ReadError },
    QoSLevel { cause: ReadError },
    DupFlag { cause: ReadError },
    RetainFlag { cause: ReadError },
    TopicName { cause: ReadError },
    Payload { cause: ReadError },
    ReasonCode { cause: ReadError },
}

/// The cause carried by a decode error, whichever field failed.
pub open spec fn spec_cause(e: DecodeError) -> ReadError {
    match e {
        DecodeError::VariableHeaderAndPayload { cause } => cause,
        DecodeError::ConnectionTimedOut { cause } => cause,
        DecodeError::VariableByteInteger { cause } => cause,
        DecodeError::UTF8String { cause } => cause,
        DecodeError::BinaryData { cause } => cause,
        DecodeError::PacketType { cause } => cause,
        DecodeError::RemainingLength { cause } => cause,
        DecodeError::ProtocolName { cause } => cause,
        DecodeError::ProtocolVersion { cause } => cause,
        DecodeError::ConnectFlags { cause } => cause,
        DecodeError::PropertyLength { cause } => cause,
        DecodeError::UnknownProperty { cause } => cause,
        DecodeError::KeepAlive { cause } => cause,
        DecodeError::ClientId { cause } => cause,
        DecodeError::Username { cause } => cause,
        DecodeError::Password { cause } => cause,
        DecodeError::WillProperties { cause } => cause,
        DecodeError::WillTopic { cause } => cause,
        DecodeError::WillPayload { cause } => cause,
        DecodeError::ControlFlags { cause } => cause,
        DecodeError::UsernameFlag { cause } => cause,
        DecodeError::PasswordFlag { cause } => cause,
        DecodeError::WillRetainFlag { cause } => cause,
        DecodeError::WillQoSFlag { cause } => cause,
        DecodeError::CleanStartFlag { cause } => cause,
        DecodeError::WillFlag { cause } => cause,
        DecodeError::ReservedFlag { cause } => cause,
        DecodeError::Property { cause } => cause,
        DecodeError::RetainHandling { cause } => cause,
        DecodeError::MaximumQoS { cause } => cause,
        DecodeError::TopicFilter { cause } => cause,
        DecodeError::RetainAsPublished { cause } => cause,
        DecodeError::NoLocal { cause } => cause,
        DecodeError::PacketIdentifier { cause } => cause,
        DecodeError::QoSLevel { cause } => cause,
        DecodeError::DupFlag { cause } => cause,
        DecodeError::RetainFlag { cause } => cause,
        DecodeError::TopicName { cause } => cause,
        DecodeError::Payload { cause } => cause,
        DecodeError::ReasonCode { cause } => cause,
    }
}

impl DecodeError {
    pub fn cause(&self) -> (r: ReadError)
        ensures
            r == spec_cause(*self),
    {
        match self {
            DecodeError::VariableHeaderAndPayload { cause } => *cause,
            DecodeError::ConnectionTimedOut { cause } => *cause,
            DecodeError::VariableByteInteger { cause } => *cause,
            DecodeError::UTF8String { cause } => *cause,
            DecodeError::BinaryData { cause } => *cause,
            DecodeError::PacketType { cause } => *cause,
            DecodeError::RemainingLength { cause } => *cause,
            DecodeError::ProtocolName { cause } => *cause,
            DecodeError::ProtocolVersion { cause } => *cause,
            DecodeError::ConnectFlags { cause } => *cause,
            DecodeError::PropertyLength { cause } => *cause,
            DecodeError::UnknownProperty { cause } => *cause,
            DecodeError::KeepAlive { cause } => *cause,
            DecodeError::ClientId { cause } => *cause,
            DecodeError::Username { cause } => *cause,
            DecodeError::Password { cause } => *cause,
            DecodeError::WillProperties { cause } => *cause,
            DecodeError::WillTopic { cause } => *cause,
            DecodeError::WillPayload { cause } => *cause,
            DecodeError::ControlFlags { cause } => *cause,
            DecodeError::UsernameFlag { cause } => *cause,
            DecodeError::PasswordFlag { cause } => *cause,
            DecodeError::WillRetainFlag { cause } => *cause,
            DecodeError::WillQoSFlag { cause } => *cause,
            DecodeError::CleanStartFlag { cause } => *cause,
            DecodeError::WillFlag { cause } => *cause,
            DecodeError::ReservedFlag { cause } => *cause,
            DecodeError::Property { cause } => *cause,
            DecodeError::RetainHandling { cause } => *cause,
            DecodeError::MaximumQoS { cause } => *cause,
            DecodeError::TopicFilter { cause } => *cause,
            DecodeError::RetainAsPublished { cause } => *cause,
            DecodeError::NoLocal { cause } => *cause,
            DecodeError::PacketIdentifier { cause } => *cause,
            DecodeError::QoSLevel { cause } => *cause,
            DecodeError::DupFlag { cause } => *cause,
            DecodeError::RetainFlag { cause } => *cause,
            DecodeError::TopicName { cause } => *cause,
            DecodeError::Payload { cause } => *cause,
            DecodeError::ReasonCode { cause } => *cause,
        }
    }
}

} // verus!
