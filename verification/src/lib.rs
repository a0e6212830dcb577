//! An MQTT 5 broker library: a bit-exact codec for the control-packet wire
//! format, concurrent-map-style registries for clients, subscriptions and
//! per-client sessions, and a packet dispatcher that turns one inbound
//! packet into registry updates and outbound messages.  Every function is
//! specified and verified; the TCP plumbing around it lives outside.

pub mod qos_level;
pub mod reason_code;
pub mod fixed_header;
pub mod topic;
pub mod variable_header;
pub mod payload;
pub mod control_packet;
pub mod decode_error;
pub mod encode_error;
pub mod vec_util;
pub mod wire;
pub mod packet_wire;
pub mod encoder;
pub mod decoder;
pub mod codec_laws;
pub mod client_handler;
pub mod topic_handler;
pub mod session;
pub mod broker_utils;
pub mod packet_dispatcher;

pub use qos_level::QoSLevel;
pub use reason_code::ReasonCode;
pub use fixed_header::{ControlPacketType, FixedHeader};
pub use topic::{RetainHandling, TopicFilter};
pub use variable_header::{ConnectAcknowledgeFlags, ConnectFlags, Property, VariableHeader};
pub use payload::Payload;
pub use control_packet::ControlPacket;
pub use decode_error::{DecodeError, ReadError};
pub use encode_error::EncodeError;
pub use encoder::encode_packet;
pub use decoder::{decode_packet, FixedHeaderDecoder, PayloadDecoder, VariableHeaderDecoder};
pub use client_handler::ClientHandler;
pub use topic_handler::TopicHandler;
pub use session::Session;
pub use packet_dispatcher::{DispatchError, OutboundMessage, PacketDispatcher};
pub use broker_utils::{generate_client_id, persist_packets, register_clean_session, register_session, SessionRegistry, SessionState};
