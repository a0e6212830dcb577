//! The packet dispatcher: one inbound packet in, registry updates and
//! outbound messages out, with an exact contract per packet type.

use vstd::prelude::*;
use crate::broker_utils::{SessionRegistry, SessionState, generate_client_id, persist_packets, register_clean_session, register_session, spec_scrub_pairs, spec_scrub_triples};
use crate::client_handler::{ClientHandler, spec_filter_pairs, spec_lookup_client, spec_lookup_socket};
use crate::control_packet::{ControlPacket, ControlPacketModel, spec_ack_packet, spec_plain_header, spec_zero_flags};
use crate::fixed_header::ControlPacketType;
use crate::qos_level::QoSLevel;
use crate::reason_code::ReasonCode;
use crate::session::{spec_has_identifier, spec_identifier, spec_storable};
use crate::topic::TopicFilterModel;
use crate::topic_handler::{TopicHandler, spec_remove_client, spec_subscribe_list};
use crate::variable_header::{ConnectAcknowledgeFlags, PropertyModel, VariableHeaderModel};
use crate::payload::PayloadModel;

verus! {

/// One message for the connection layer: the packet, and the sockets it
/// goes to.
pub struct OutboundMessage {
    pub recipients: Vec<u64>,
    pub packet: ControlPacket,
}

/// Mathematical value of an outbound message.
#[verifier::ext_equal]
pub struct OutboundModel {
    pub recipients: Seq<u64>,
    pub packet: ControlPacketModel,
}

impl View for OutboundMessage {
    type V = OutboundModel;

    open spec fn view(&self) -> OutboundModel {
        OutboundModel { recipients: self.recipients@, packet: self.packet@ }
    }
}

/// The outbound messages as mathematical values, in emission order.
pub open spec fn spec_outs(v: Seq<OutboundMessage>) -> Seq<OutboundModel> {
    Seq::new(v.len(), |i: int| v[i]@)
}

/// A packet that needs a registered sender arrived from an unknown socket;
/// the packet is dropped.
#[derive(Debug, Clone, Copy, PartialEq, Eq, Structural)]
pub enum DispatchError {
    ClientNotRegistered,
}

/// The dispatcher: receives one decoded packet at a time, branches on its
/// type, updates the registries and says what to send to whom.
pub struct PacketDispatcher {
    pub client_handler: ClientHandler,
    pub topic_handler: TopicHandler,
    pub sessions: SessionRegistry,
}

/// A CONNACK carrying the session-present flag, as the server builds it.
pub open spec fn spec_connack_model(session_present: bool) -> ControlPacketModel {
    ControlPacketModel {
        fixed_header: spec_plain_header(ControlPacketType::CONNACK, spec_zero_flags()),
        variable_header: Some(VariableHeaderModel {
            protocol_name: None,
            protocol_version: None,
            connect_flags: None,
            keep_alive: None,
            connect_acknowledge_flags: Some(ConnectAcknowledgeFlags { session_present }),
            reason_code: Some(ReasonCode::Success),
            properties: Seq::<PropertyModel>::empty(),
            packet_identifier: None,
            topic_name: None,
        }),
        payload: None,
    }
}

/// A DISCONNECT carrying the given reason, as the server builds it.
pub open spec fn spec_disconnect_model(reason_code: ReasonCode) -> ControlPacketModel {
    ControlPacketModel {
        fixed_header: spec_plain_header(ControlPacketType::DISCONNECT, spec_zero_flags()),
        variable_header: Some(VariableHeaderModel {
            protocol_name: None,
            protocol_version: None,
            connect_flags: None,
            keep_alive: None,
            connect_acknowledge_flags: None,
            reason_code: Some(reason_code),
            properties: Seq::<PropertyModel>::empty(),
            packet_identifier: None,
            topic_name: None,
        }),
        payload: None,
    }
}

/// A PINGRESP, as the server builds it.
pub open spec fn spec_pingresp_model() -> ControlPacketModel {
    ControlPacketModel {
        fixed_header: spec_plain_header(ControlPacketType::PINGRESP, spec_zero_flags()),
        variable_header: None,
        payload: None,
    }
}

/// A SUBACK or UNSUBACK carrying one reason code per requested filter, as
/// the server builds it.
pub open spec fn spec_sub_ack_model(t: ControlPacketType, packet_identifier: Option<u16>, codes: Seq<ReasonCode>) -> ControlPacketModel {
    ControlPacketModel {
        fixed_header: spec_plain_header(t, spec_zero_flags()),
        variable_header: Some(VariableHeaderModel {
            protocol_name: None,
            protocol_version: None,
            connect_flags: None,
            keep_alive: None,
            connect_acknowledge_flags: None,
            reason_code: None,
            properties: Seq::<PropertyModel>::empty(),
            packet_identifier,
            topic_name: None,
        }),
        payload: Some(PayloadModel {
            client_id: None,
            will_properties: None,
            will_topic: None,
            will_payload: None,
            username: None,
            password: None,
            topic_filters: None,
            reason_codes: Some(codes),
            data: None,
        }),
    }
}

/// The sockets a PUBLISH fans out to: each subscriber's socket, in
/// subscription order, skipping unregistered subscribers and the sender.
pub open spec fn spec_fanout_sockets(pairs: Seq<(u64, Seq<char>)>, subs: Seq<Seq<char>>, sender: u64) -> Seq<u64>
    decreases subs.len(),
{
    if subs.len() == 0 {
        Seq::<u64>::empty()
    } else {
        let rest = spec_fanout_sockets(pairs, subs.drop_last(), sender);
        match spec_lookup_socket(pairs, subs.last()) {
            Some(s) => if s != sender {
                rest.push(s)
            } else {
                rest
            },
            None => rest,
        }
    }
}

/// No self-delivery: whatever the registries hold, a publishing socket is
/// never among the sockets its own PUBLISH fans out to.
pub proof fn lemma_no_self_delivery(pairs: Seq<(u64, Seq<char>)>, subs: Seq<Seq<char>>, sender: u64)
    ensures
        !spec_fanout_sockets(pairs, subs, sender).contains(sender),
    decreases subs.len(),
{
    if subs.len() > 0 {
        lemma_no_self_delivery(pairs, subs.drop_last(), sender);
        let rest = spec_fanout_sockets(pairs, subs.drop_last(), sender);
        match spec_lookup_socket(pairs, subs.last()) {
            Some(s) => {
                if s != sender {
                    assert forall|i: int| 0 <= i < rest.push(s).len() implies rest.push(s)[i] != sender by {
                        if i < rest.len() {
                            assert(rest.push(s)[i] == rest[i]);
                            assert(!rest.contains(sender));
                        }
                    }
                }
            },
            None => {},
        }
    }
}

/// What a list of SUBSCRIBE entries, applied in order, leaves of one
/// topic's membership.
pub open spec fn spec_sub_result(old_list: Seq<Seq<char>>, g: Seq<char>, filters: Seq<TopicFilterModel>, c: Seq<char>) -> Seq<Seq<char>>
    decreases filters.len(),
{
    if filters.len() == 0 {
        old_list
    } else {
        let prev = spec_sub_result(old_list, g, filters.drop_last(), c);
        if filters.last().topic_filter == g {
            spec_subscribe_list(prev, c)
        } else {
            prev
        }
    }
}

/// What a list of UNSUBSCRIBE entries, applied in order, leaves of one
/// topic's membership.
pub open spec fn spec_unsub_result(old_list: Seq<Seq<char>>, g: Seq<char>, filters: Seq<TopicFilterModel>, c: Seq<char>) -> Seq<Seq<char>>
    decreases filters.len(),
{
    if filters.len() == 0 {
        old_list
    } else {
        let prev = spec_unsub_result(old_list, g, filters.drop_last(), c);
        if filters.last().topic_filter == g {
            spec_remove_client(prev, c)
        } else {
            prev
        }
    }
}

/// The subscription-entry models of a packet's payload.
pub open spec fn spec_packet_filters(m: ControlPacketModel) -> Seq<TopicFilterModel> {
    m.payload->0.topic_filters->0
}

/// What a packet must carry for its type's handler: the shapes the decoder
/// guarantees for packets read off the wire.
pub open spec fn spec_dispatchable(m: ControlPacketModel) -> bool {
    match m.fixed_header.packet_type {
        ControlPacketType::CONNECT => m.variable_header matches Some(v) && v.connect_flags is Some,
        ControlPacketType::PUBLISH => spec_storable(m) && (m.variable_header matches Some(v) && v.topic_name
            is Some),
        ControlPacketType::PUBREC => spec_has_identifier(m),
        ControlPacketType::PUBREL => spec_has_identifier(m),
        ControlPacketType::SUBSCRIBE => m.variable_header is Some && (m.payload matches Some(p)
            && p.topic_filters is Some),
        ControlPacketType::UNSUBSCRIBE => m.variable_header is Some && (m.payload matches Some(p)
            && p.topic_filters is Some),
        _ => true,
    }
}

impl PacketDispatcher {
    /// All three registries are well formed.
    pub open spec fn wf(&self) -> bool {
        &&& self.client_handler.wf()
        &&& self.topic_handler.wf()
        &&& self.sessions.wf()
    }

    pub fn new(client_handler: ClientHandler, topic_handler: TopicHandler, sessions: SessionRegistry) -> (r: Self)
        ensures
            r.client_handler == client_handler,
            r.topic_handler == topic_handler,
            r.sessions == sessions,
    {
        PacketDispatcher { client_handler, topic_handler, sessions }
    }
}



/// What handling a CONNECT does, for the client identifier `used` the
/// handler settled on.
pub open spec fn spec_connect_post(
    pre: PacketDispatcher,
    post: PacketDispatcher,
    socket: u64,
    m: ControlPacketModel,
    outs: Seq<OutboundModel>,
    used: Seq<char>,
) -> bool {
    let clean = m.variable_header->0.connect_flags->0.clean_start_flag;
    let prev = spec_lookup_socket(pre.client_handler.pairs(), used);
    let present = !clean && pre.sessions.known_view().contains(used);
    &&& (spec_packet_has_client_id(m) ==> used == m.payload->0.client_id->0)
    &&& (!spec_packet_has_client_id(m) ==> used.len() > 0)
    &&& post.client_handler.pairs() == spec_filter_pairs(pre.client_handler.pairs(), Some(socket), Some(used)).push(
        (socket, used),
    )
    &&& spec_lookup_client(post.client_handler.pairs(), socket) == Some(used)
    &&& spec_lookup_socket(post.client_handler.pairs(), used) == Some(socket)
    &&& post.sessions.known_view() == spec_subscribe_list(pre.sessions.known_view(), used)
    &&& (clean ==> {
        &&& post.sessions.store.qos0_view() == spec_scrub_pairs(pre.sessions.store.qos0_view(), used)
        &&& post.sessions.store.qos1_view() == spec_scrub_triples(pre.sessions.store.qos1_view(), used)
        &&& post.sessions.store.qos2_view() == spec_scrub_triples(pre.sessions.store.qos2_view(), used)
        &&& post.sessions.store.puback_view() == spec_scrub_pairs(pre.sessions.store.puback_view(), used)
        &&& post.sessions.store.pubrec_view() == spec_scrub_pairs(pre.sessions.store.pubrec_view(), used)
        &&& post.sessions.store.pubrel_view() == spec_scrub_pairs(pre.sessions.store.pubrel_view(), used)
        &&& forall|g: Seq<char>|
            #[trigger] post.topic_handler.subscribers_of(g) == spec_remove_client(
                pre.topic_handler.subscribers_of(g),
                used,
            )
    })
    &&& (!clean ==> post.sessions.store == pre.sessions.store && post.topic_handler == pre.topic_handler)
    &&& outs == (match prev {
        Some(ps) => seq![
            OutboundModel { recipients: seq![ps], packet: spec_disconnect_model(ReasonCode::SessionTakenOver) },
        ],
        None => Seq::<OutboundModel>::empty(),
    }) + seq![OutboundModel { recipients: seq![socket], packet: spec_connack_model(present) }]
}

/// Some client identifier (the payload's, or a generated one) makes the
/// CONNECT outcome hold.
pub open spec fn spec_connect_exists(
    pre: PacketDispatcher,
    post: PacketDispatcher,
    socket: u64,
    m: ControlPacketModel,
    outs: Seq<OutboundModel>,
) -> bool {
    exists|used: Seq<char>| #[trigger] spec_connect_post(pre, post, socket, m, outs, used)
}

/// Whether a packet carries a nonempty client identifier in its payload.
pub open spec fn spec_packet_has_client_id(m: ControlPacketModel) -> bool {
    &&& m.payload is Some
    &&& m.payload->0.client_id is Some
    &&& m.payload->0.client_id->0.len() > 0
}

/// What handling a PUBLISH does.
pub open spec fn spec_publish_post(
    pre: PacketDispatcher,
    post: PacketDispatcher,
    socket: u64,
    m: ControlPacketModel,
    outs: Seq<OutboundModel>,
) -> bool {
    let topic = m.variable_header->0.topic_name->0;
    let subs = pre.topic_handler.subscribers_of(topic);
    let pid = m.variable_header->0.packet_identifier;
    &&& spec_lookup_client(pre.client_handler.pairs(), socket) is Some
    &&& post.client_handler == pre.client_handler
    &&& post.topic_handler == pre.topic_handler
    &&& post.sessions.known_view() == pre.sessions.known_view()
    &&& (match m.fixed_header.qos_level->0 {
        QoSLevel::AtMostOnce => post.sessions.store.qos0_view() == pre.sessions.store.qos0_view() + Seq::new(
            subs.len(),
            |i: int| (subs[i], m),
        ) && post.sessions.store.qos1_view() == pre.sessions.store.qos1_view()
            && post.sessions.store.qos2_view() == pre.sessions.store.qos2_view(),
        QoSLevel::AtLeastOnce => post.sessions.store.qos1_view() == pre.sessions.store.qos1_view() + Seq::new(
            subs.len(),
            |i: int| (subs[i], spec_identifier(m), m),
        ) && post.sessions.store.qos0_view() == pre.sessions.store.qos0_view()
            && post.sessions.store.qos2_view() == pre.sessions.store.qos2_view(),
        QoSLevel::ExactlyOnce => post.sessions.store.qos2_view() == pre.sessions.store.qos2_view() + Seq::new(
            subs.len(),
            |i: int| (subs[i], spec_identifier(m), m),
        ) && post.sessions.store.qos0_view() == pre.sessions.store.qos0_view()
            && post.sessions.store.qos1_view() == pre.sessions.store.qos1_view(),
    })
    &&& post.sessions.store.puback_view() == pre.sessions.store.puback_view()
    &&& post.sessions.store.pubrec_view() == pre.sessions.store.pubrec_view()
    &&& post.sessions.store.pubrel_view() == pre.sessions.store.pubrel_view()
    &&& outs == (match m.fixed_header.qos_level->0 {
        QoSLevel::AtMostOnce => Seq::<OutboundModel>::empty(),
        QoSLevel::AtLeastOnce => seq![
            OutboundModel {
                recipients: seq![socket],
                packet: spec_ack_packet(ControlPacketType::PUBACK, spec_zero_flags(), pid),
            },
        ],
        QoSLevel::ExactlyOnce => seq![
            OutboundModel {
                recipients: seq![socket],
                packet: spec_ack_packet(ControlPacketType::PUBREC, spec_zero_flags(), pid),
            },
        ],
    }) + seq![
        OutboundModel {
            recipients: spec_fanout_sockets(pre.client_handler.pairs(), subs, socket),
            packet: m,
        },
    ]
}

impl PacketDispatcher {
    /// CONNECT: derive the client identifier (the payload's when nonempty,
    /// else a generated one), register the socket for it — disconnecting
    /// the session it takes over, if any — give it a session (a fresh one
    /// and a full unsubscribe under a clean start), and answer CONNACK.
    pub fn process_connect(&mut self, socket: u64, control_packet: &ControlPacket) -> (r: Vec<OutboundMessage>)
        requires
            old(self).wf(),
            spec_dispatchable(control_packet@),
            control_packet@.fixed_header.packet_type is CONNECT,
        ensures
            final(self).wf(),
            spec_connect_exists(*old(self), *final(self), socket, control_packet@, spec_outs(r@)),
    {
        let mut client_id = generate_client_id();
        if control_packet.has_client_id() {
            client_id = control_packet.payload().client_id().clone();
        }
        let ghost used = client_id@;
        let prev = self.client_handler.register(socket, &client_id);
        let mut outputs: Vec<OutboundMessage> = Vec::new();
        match prev {
            Some(previous_socket) => {
                outputs.push(OutboundMessage {
                    recipients: vec![previous_socket],
                    packet: ControlPacket::disconnect(ReasonCode::SessionTakenOver),
                });
            },
            None => {},
        }
        let mut session_present = false;
        if control_packet.variable_header().connect_flags().clean_start_flag() {
            register_clean_session(&mut self.sessions, &client_id);
            self.topic_handler.unsubscribe_all(&client_id);
        } else {
            session_present = match register_session(&mut self.sessions, &client_id) {
                SessionState::SessionPresent => true,
                SessionState::CleanSession => false,
            };
        }
        outputs.push(OutboundMessage { recipients: vec![socket], packet: ControlPacket::connack(session_present) });
        proof {
            let expected_head: Seq<OutboundModel> = match spec_lookup_socket(
                old(self).client_handler.pairs(),
                used,
            ) {
                Some(ps) => seq![
                    OutboundModel { recipients: seq![ps], packet: spec_disconnect_model(ReasonCode::SessionTakenOver) },
                ],
                None => Seq::<OutboundModel>::empty(),
            };
            let present = !control_packet@.variable_header->0.connect_flags->0.clean_start_flag && old(
                self,
            ).sessions.known_view().contains(used);
            assert(session_present == present);
            assert(spec_outs(outputs@) =~~= expected_head + seq![
                OutboundModel { recipients: seq![socket], packet: spec_connack_model(present) },
            ]);
            assert(spec_connect_post(*old(self), *self, socket, control_packet@, spec_outs(outputs@), used));
            assert(spec_connect_exists(*old(self), *self, socket, control_packet@, spec_outs(outputs@)));
        }
        outputs
    }

    /// PUBLISH: acknowledge per quality of service, record the packet in
    /// every subscriber's session, and fan the packet out to the
    /// subscribers' sockets — never back to the sender.
    pub fn process_publish(&mut self, socket: u64, control_packet: &ControlPacket) -> (r: Result<Vec<OutboundMessage>, DispatchError>)
        requires
            old(self).wf(),
            spec_dispatchable(control_packet@),
            control_packet@.fixed_header.packet_type is PUBLISH,
        ensures
            final(self).wf(),
            match r {
                Ok(outs) => spec_publish_post(*old(self), *final(self), socket, control_packet@, spec_outs(outs@)),
                Err(e) => e == DispatchError::ClientNotRegistered && spec_lookup_client(
                    old(self).client_handler.pairs(),
                    socket,
                ) is None && *final(self) == *old(self),
            },
    {
        let client_id = match self.client_handler.get_client_id(socket) {
            Ok(c) => c,
            Err(_) => {
                return Err(DispatchError::ClientNotRegistered);
            },
        };
        let qos = *control_packet.fixed_header().qos_level();
        let mut outputs: Vec<OutboundMessage> = Vec::new();
        match qos {
            QoSLevel::AtLeastOnce => {
                outputs.push(OutboundMessage {
                    recipients: vec![socket],
                    packet: ControlPacket::puback(control_packet.variable_header().packet_identifier_opt()),
                });
            },
            QoSLevel::ExactlyOnce => {
                outputs.push(OutboundMessage {
                    recipients: vec![socket],
                    packet: ControlPacket::pubrec(control_packet.variable_header().packet_identifier_opt()),
                });
            },
            QoSLevel::AtMostOnce => {},
        }
        let subscribers = self.topic_handler.find_subscribers(control_packet.variable_header().topic_name());
        persist_packets(&mut self.sessions, &subscribers, control_packet);
        let ghost subs = crate::topic_handler::spec_views(subscribers@);
        proof {
            let m = control_packet@;
            assert(subs == old(self).topic_handler.subscribers_of(m.variable_header->0.topic_name->0));
            assert(Seq::new(subscribers@.len(), |i: int| (subscribers@[i]@, m)) =~= Seq::new(
                subs.len(),
                |i: int| (subs[i], m),
            ));
            assert(Seq::new(subscribers@.len(), |i: int| (subscribers@[i]@, spec_identifier(m), m)) =~= Seq::new(
                subs.len(),
                |i: int| (subs[i], spec_identifier(m), m),
            ));
        }
        let mut recipients: Vec<u64> = Vec::new();
        let mut i: usize = 0;
        let n = subscribers.len();
        while i < n
            invariant
                i <= n,
                n == subscribers@.len(),
                subs == crate::topic_handler::spec_views(subscribers@),
                self.client_handler.wf(),
                self.client_handler == old(self).client_handler,
                recipients@ == spec_fanout_sockets(
                    old(self).client_handler.pairs(),
                    subs.subrange(0, i as int),
                    socket,
                ),
            decreases n - i,
        {
            match self.client_handler.get_socket(&subscribers[i]) {
                Ok(s) => {
                    if s != socket {
                        recipients.push(s);
                    }
                },
                Err(_) => {},
            }
            proof {
                let pre = subs.subrange(0, i as int);
                let cur = subs.subrange(0, i + 1 as int);
                assert(cur.drop_last() =~= pre);
                assert(cur.last() == subs[i as int]);
                assert(subs[i as int] == subscribers@[i as int]@);
            }
            i = i + 1;
        }
        proof {
            assert(subs.subrange(0, n as int) =~= subs);
        }
        outputs.push(OutboundMessage { recipients, packet: control_packet.clone() });
        proof {
            let m = control_packet@;
            let expected_acks: Seq<OutboundModel> = match m.fixed_header.qos_level->0 {
                QoSLevel::AtMostOnce => Seq::<OutboundModel>::empty(),
                QoSLevel::AtLeastOnce => seq![
                    OutboundModel {
                        recipients: seq![socket],
                        packet: spec_ack_packet(
                            ControlPacketType::PUBACK,
                            spec_zero_flags(),
                            m.variable_header->0.packet_identifier,
                        ),
                    },
                ],
                QoSLevel::ExactlyOnce => seq![
                    OutboundModel {
                        recipients: seq![socket],
                        packet: spec_ack_packet(
                            ControlPacketType::PUBREC,
                            spec_zero_flags(),
                            m.variable_header->0.packet_identifier,
                        ),
                    },
                ],
            };
            assert(spec_outs(outputs@) =~~= expected_acks + seq![
                OutboundModel {
                    recipients: spec_fanout_sockets(
                        old(self).client_handler.pairs(),
                        old(self).topic_handler.subscribers_of(m.variable_header->0.topic_name->0),
                        socket,
                    ),
                    packet: m,
                },
            ]);
        }
        Ok(outputs)
    }

    /// PUBREC: record it against the sender's session and answer PUBREL.
    pub fn process_pubrec(&mut self, socket: u64, control_packet: &ControlPacket) -> (r: Result<Vec<OutboundMessage>, DispatchError>)
        requires
            old(self).wf(),
            spec_has_identifier(control_packet@),
        ensures
            final(self).wf(),
            final(self).client_handler == old(self).client_handler,
            final(self).topic_handler == old(self).topic_handler,
            match r {
                Ok(outs) => {
                    &&& spec_lookup_client(old(self).client_handler.pairs(), socket) matches Some(cid)
                        && final(self).sessions.store.pubrec_view() == old(self).sessions.store.pubrec_view().push(
                        (cid, spec_identifier(control_packet@)),
                    )
                    &&& final(self).sessions.known_view() == old(self).sessions.known_view()
                    &&& final(self).sessions.store.qos0_view() == old(self).sessions.store.qos0_view()
                    &&& final(self).sessions.store.qos1_view() == old(self).sessions.store.qos1_view()
                    &&& final(self).sessions.store.qos2_view() == old(self).sessions.store.qos2_view()
                    &&& final(self).sessions.store.puback_view() == old(self).sessions.store.puback_view()
                    &&& final(self).sessions.store.pubrel_view() == old(self).sessions.store.pubrel_view()
                    &&& spec_outs(outs@) == seq![
                        OutboundModel {
                            recipients: seq![socket],
                            packet: spec_ack_packet(
                                ControlPacketType::PUBREL,
                                seq![false, false, true, false],
                                control_packet@.variable_header->0.packet_identifier,
                            ),
                        },
                    ]
                },
                Err(e) => e == DispatchError::ClientNotRegistered && spec_lookup_client(
                    old(self).client_handler.pairs(),
                    socket,
                ) is None && *final(self) == *old(self),
            },
    {
        let client_id = match self.client_handler.get_client_id(socket) {
            Ok(c) => c,
            Err(_) => {
                return Err(DispatchError::ClientNotRegistered);
            },
        };
        self.sessions.store.register_pubrec(client_id, control_packet);
        proof {
            assert(self.sessions.known_view() =~= old(self).sessions.known_view());
        }
        let mut outputs: Vec<OutboundMessage> = Vec::new();
        outputs.push(OutboundMessage {
            recipients: vec![socket],
            packet: ControlPacket::pubrel(control_packet.variable_header().packet_identifier_opt()),
        });
        proof {
            assert(spec_outs(outputs@) =~~= seq![
                OutboundModel {
                    recipients: seq![socket],
                    packet: spec_ack_packet(
                        ControlPacketType::PUBREL,
                        seq![false, false, true, false],
                        control_packet@.variable_header->0.packet_identifier,
                    ),
                },
            ]);
        }
        Ok(outputs)
    }

    /// PUBREL: record it against the sender's session and answer PUBCOMP.
    pub fn process_pubrel(&mut self, socket: u64, control_packet: &ControlPacket) -> (r: Result<Vec<OutboundMessage>, DispatchError>)
        requires
            old(self).wf(),
            spec_has_identifier(control_packet@),
        ensures
            final(self).wf(),
            final(self).client_handler == old(self).client_handler,
            final(self).topic_handler == old(self).topic_handler,
            match r {
                Ok(outs) => {
                    &&& spec_lookup_client(old(self).client_handler.pairs(), socket) matches Some(cid)
                        && final(self).sessions.store.pubrel_view() == old(self).sessions.store.pubrel_view().push(
                        (cid, spec_identifier(control_packet@)),
                    )
                    &&& final(self).sessions.known_view() == old(self).sessions.known_view()
                    &&& final(self).sessions.store.qos0_view() == old(self).sessions.store.qos0_view()
                    &&& final(self).sessions.store.qos1_view() == old(self).sessions.store.qos1_view()
                    &&& final(self).sessions.store.qos2_view() == old(self).sessions.store.qos2_view()
                    &&& final(self).sessions.store.puback_view() == old(self).sessions.store.puback_view()
                    &&& final(self).sessions.store.pubrec_view() == old(self).sessions.store.pubrec_view()
                    &&& spec_outs(outs@) == seq![
                        OutboundModel {
                            recipients: seq![socket],
                            packet: spec_ack_packet(
                                ControlPacketType::PUBCOMP,
                                spec_zero_flags(),
                                control_packet@.variable_header->0.packet_identifier,
                            ),
                        },
                    ]
                },
                Err(e) => e == DispatchError::ClientNotRegistered && spec_lookup_client(
                    old(self).client_handler.pairs(),
                    socket,
                ) is None && *final(self) == *old(self),
            },
    {
        let client_id = match self.client_handler.get_client_id(socket) {
            Ok(c) => c,
            Err(_) => {
                return Err(DispatchError::ClientNotRegistered);
            },
        };
        self.sessions.store.register_pubrel(client_id, control_packet);
        proof {
            assert(self.sessions.known_view() =~= old(self).sessions.known_view());
        }
        let mut outputs: Vec<OutboundMessage> = Vec::new();
        outputs.push(OutboundMessage {
            recipients: vec![socket],
            packet: ControlPacket::pubcomp(control_packet.variable_header().packet_identifier_opt()),
        });
        proof {
            assert(spec_outs(outputs@) =~~= seq![
                OutboundModel {
                    recipients: seq![socket],
                    packet: spec_ack_packet(
                        ControlPacketType::PUBCOMP,
                        spec_zero_flags(),
                        control_packet@.variable_header->0.packet_identifier,
                    ),
                },
            ]);
        }
        Ok(outputs)
    }

    /// PINGREQ: answer PINGRESP; nothing changes.
    pub fn process_pingreq(&mut self, socket: u64) -> (r: Result<Vec<OutboundMessage>, DispatchError>)
        requires
            old(self).wf(),
        ensures
            *final(self) == *old(self),
            final(self).wf(),
            match r {
                Ok(outs) => spec_lookup_client(old(self).client_handler.pairs(), socket) is Some && spec_outs(
                    outs@,
                ) == seq![OutboundModel { recipients: seq![socket], packet: spec_pingresp_model() }],
                Err(e) => e == DispatchError::ClientNotRegistered && spec_lookup_client(
                    old(self).client_handler.pairs(),
                    socket,
                ) is None,
            },
    {
        let _client_id = match self.client_handler.get_client_id(socket) {
            Ok(c) => c,
            Err(_) => {
                return Err(DispatchError::ClientNotRegistered);
            },
        };
        let mut outputs: Vec<OutboundMessage> = Vec::new();
        outputs.push(OutboundMessage { recipients: vec![socket], packet: ControlPacket::pingresp() });
        proof {
            assert(spec_outs(outputs@) =~~= seq![
                OutboundModel { recipients: seq![socket], packet: spec_pingresp_model() },
            ]);
        }
        Ok(outputs)
    }

    /// DISCONNECT: unregister the socket in both directions and answer
    /// DISCONNECT(NormalDisconnection), on which the connection layer shuts
    /// the socket down.
    pub fn process_disconnect(&mut self, socket: u64) -> (r: Result<Vec<OutboundMessage>, DispatchError>)
        requires
            old(self).wf(),
        ensures
            final(self).wf(),
            final(self).topic_handler == old(self).topic_handler,
            final(self).sessions == old(self).sessions,
            match r {
                Ok(outs) => {
                    &&& spec_lookup_client(old(self).client_handler.pairs(), socket) matches Some(cid)
                        && final(self).client_handler.pairs() == spec_filter_pairs(
                        old(self).client_handler.pairs(),
                        Some(socket),
                        Some(cid),
                    )
                    &&& spec_lookup_client(final(self).client_handler.pairs(), socket) is None
                    &&& spec_outs(outs@) == seq![
                        OutboundModel {
                            recipients: seq![socket],
                            packet: spec_disconnect_model(ReasonCode::NormalDisconnection),
                        },
                    ]
                },
                Err(e) => e == DispatchError::ClientNotRegistered && spec_lookup_client(
                    old(self).client_handler.pairs(),
                    socket,
                ) is None && *final(self) == *old(self),
            },
    {
        let client_id = match self.client_handler.get_client_id(socket) {
            Ok(c) => c,
            Err(_) => {
                return Err(DispatchError::ClientNotRegistered);
            },
        };
        self.client_handler.unregister(socket, &client_id);
        let mut outputs: Vec<OutboundMessage> = Vec::new();
        outputs.push(OutboundMessage {
            recipients: vec![socket],
            packet: ControlPacket::disconnect(ReasonCode::NormalDisconnection),
        });
        proof {
            assert(spec_outs(outputs@) =~~= seq![
                OutboundModel {
                    recipients: seq![socket],
                    packet: spec_disconnect_model(ReasonCode::NormalDisconnection),
                },
            ]);
        }
        Ok(outputs)
    }
}


impl PacketDispatcher {
    /// SUBSCRIBE: subscribe the sender to every filter in the payload, in
    /// order, and answer SUBACK with one GrantedQoS0 per filter (the server
    /// downgrades every subscription to at-most-once).
    pub fn process_subscribe(&mut self, socket: u64, control_packet: &ControlPacket) -> (r: Result<Vec<OutboundMessage>, DispatchError>)
        requires
            old(self).wf(),
            spec_dispatchable(control_packet@),
            control_packet@.fixed_header.packet_type is SUBSCRIBE,
        ensures
            final(self).wf(),
            final(self).client_handler == old(self).client_handler,
            final(self).sessions == old(self).sessions,
            match r {
                Ok(outs) => {
                    &&& spec_lookup_client(old(self).client_handler.pairs(), socket) matches Some(cid)
                        && (forall|g: Seq<char>|
                        #[trigger] final(self).topic_handler.subscribers_of(g) == spec_sub_result(
                            old(self).topic_handler.subscribers_of(g),
                            g,
                            spec_packet_filters(control_packet@),
                            cid,
                        ))
                    &&& spec_outs(outs@) == seq![
                        OutboundModel {
                            recipients: seq![socket],
                            packet: spec_sub_ack_model(
                                ControlPacketType::SUBACK,
                                control_packet@.variable_header->0.packet_identifier,
                                Seq::new(
                                    spec_packet_filters(control_packet@).len(),
                                    |i: int| ReasonCode::GrantedQoS0,
                                ),
                            ),
                        },
                    ]
                },
                Err(e) => e == DispatchError::ClientNotRegistered && spec_lookup_client(
                    old(self).client_handler.pairs(),
                    socket,
                ) is None && *final(self) == *old(self),
            },
    {
        let client_id = match self.client_handler.get_client_id(socket) {
            Ok(c) => c,
            Err(_) => {
                return Err(DispatchError::ClientNotRegistered);
            },
        };
        let ghost filters_model = spec_packet_filters(control_packet@);
        let topic_filters = control_packet.payload().topic_filters();
        let mut reason_codes: Vec<ReasonCode> = Vec::new();
        let mut i: usize = 0;
        let n = topic_filters.len();
        proof {
            assert(filters_model.len() == n);
        }
        while i < n
            invariant
                i <= n,
                n == topic_filters@.len(),
                n == filters_model.len(),
                forall|k: int| 0 <= k < n ==> #[trigger] filters_model[k] == topic_filters@[k]@,
                self.client_handler == old(self).client_handler,
                self.sessions == old(self).sessions,
                self.client_handler.wf(),
                self.sessions.wf(),
                self.topic_handler.wf(),
                reason_codes@ == Seq::new(i as nat, |k: int| ReasonCode::GrantedQoS0),
                forall|g: Seq<char>|
                    #[trigger] self.topic_handler.subscribers_of(g) == spec_sub_result(
                        old(self).topic_handler.subscribers_of(g),
                        g,
                        filters_model.subrange(0, i as int),
                        client_id@,
                    ),
            decreases n - i,
        {
            let ghost mid = self.topic_handler;
            self.topic_handler.subscribe(&client_id, topic_filters[i].topic_filter());
            reason_codes.push(ReasonCode::GrantedQoS0);
            proof {
                assert(reason_codes@ =~= Seq::new((i + 1) as nat, |k: int| ReasonCode::GrantedQoS0));
                let pre = filters_model.subrange(0, i as int);
                let cur = filters_model.subrange(0, i + 1 as int);
                assert(cur.drop_last() =~= pre);
                assert(cur.last() == filters_model[i as int]);
                assert(filters_model[i as int].topic_filter == topic_filters@[i as int]@.topic_filter);
                assert forall|g: Seq<char>| true implies #[trigger] self.topic_handler.subscribers_of(g)
                    == spec_sub_result(old(self).topic_handler.subscribers_of(g), g, cur, client_id@) by {
                    if g == filters_model[i as int].topic_filter {
                        assert(self.topic_handler.subscribers_of(g) == spec_subscribe_list(
                            mid.subscribers_of(g),
                            client_id@,
                        ));
                    } else {
                        assert(self.topic_handler.subscribers_of(g) == mid.subscribers_of(g));
                    }
                }
            }
            i = i + 1;
        }
        let suback_packet = ControlPacket::suback(
            control_packet.variable_header().packet_identifier_opt(),
            reason_codes,
        );
        let mut outputs: Vec<OutboundMessage> = Vec::new();
        outputs.push(OutboundMessage { recipients: vec![socket], packet: suback_packet });
        proof {
            assert(filters_model.subrange(0, n as int) =~= filters_model);
            assert(spec_outs(outputs@) =~~= seq![
                OutboundModel {
                    recipients: seq![socket],
                    packet: spec_sub_ack_model(
                        ControlPacketType::SUBACK,
                        control_packet@.variable_header->0.packet_identifier,
                        Seq::new(filters_model.len(), |i: int| ReasonCode::GrantedQoS0),
                    ),
                },
            ]);
        }
        Ok(outputs)
    }

    /// UNSUBSCRIBE: remove the sender from every filter in the payload, in
    /// order, and answer UNSUBACK with one Success per filter.
    pub fn process_unsubscribe(&mut self, socket: u64, control_packet: &ControlPacket) -> (r: Result<Vec<OutboundMessage>, DispatchError>)
        requires
            old(self).wf(),
            spec_dispatchable(control_packet@),
            control_packet@.fixed_header.packet_type is UNSUBSCRIBE,
        ensures
            final(self).wf(),
            final(self).client_handler == old(self).client_handler,
            final(self).sessions == old(self).sessions,
            match r {
                Ok(outs) => {
                    &&& spec_lookup_client(old(self).client_handler.pairs(), socket) matches Some(cid)
                        && (forall|g: Seq<char>|
                        #[trigger] final(self).topic_handler.subscribers_of(g) == spec_unsub_result(
                            old(self).topic_handler.subscribers_of(g),
                            g,
                            spec_packet_filters(control_packet@),
                            cid,
                        ))
                    &&& spec_outs(outs@) == seq![
                        OutboundModel {
                            recipients: seq![socket],
                            packet: spec_sub_ack_model(
                                ControlPacketType::UNSUBACK,
                                control_packet@.variable_header->0.packet_identifier,
                                Seq::new(
                                    spec_packet_filters(control_packet@).len(),
                                    |i: int| ReasonCode::Success,
                                ),
                            ),
                        },
                    ]
                },
                Err(e) => e == DispatchError::ClientNotRegistered && spec_lookup_client(
                    old(self).client_handler.pairs(),
                    socket,
                ) is None && *final(self) == *old(self),
            },
    {
        let client_id = match self.client_handler.get_client_id(socket) {
            Ok(c) => c,
            Err(_) => {
                return Err(DispatchError::ClientNotRegistered);
            },
        };
        let ghost filters_model = spec_packet_filters(control_packet@);
        let topic_filters = control_packet.payload().topic_filters();
        let mut reason_codes: Vec<ReasonCode> = Vec::new();
        let mut i: usize = 0;
        let n = topic_filters.len();
        proof {
            assert(filters_model.len() == n);
        }
        while i < n
            invariant
                i <= n,
                n == topic_filters@.len(),
                n == filters_model.len(),
                forall|k: int| 0 <= k < n ==> #[trigger] filters_model[k] == topic_filters@[k]@,
                self.client_handler == old(self).client_handler,
                self.sessions == old(self).sessions,
                self.client_handler.wf(),
                self.sessions.wf(),
                self.topic_handler.wf(),
                reason_codes@ == Seq::new(i as nat, |k: int| ReasonCode::Success),
                forall|g: Seq<char>|
                    #[trigger] self.topic_handler.subscribers_of(g) == spec_unsub_result(
                        old(self).topic_handler.subscribers_of(g),
                        g,
                        filters_model.subrange(0, i as int),
                        client_id@,
                    ),
            decreases n - i,
        {
            let ghost mid = self.topic_handler;
            self.topic_handler.unsubscribe(&client_id, topic_filters[i].topic_filter());
            reason_codes.push(ReasonCode::Success);
            proof {
                assert(reason_codes@ =~= Seq::new((i + 1) as nat, |k: int| ReasonCode::Success));
                let pre = filters_model.subrange(0, i as int);
                let cur = filters_model.subrange(0, i + 1 as int);
                assert(cur.drop_last() =~= pre);
                assert(cur.last() == filters_model[i as int]);
                assert(filters_model[i as int].topic_filter == topic_filters@[i as int]@.topic_filter);
                assert forall|g: Seq<char>| true implies #[trigger] self.topic_handler.subscribers_of(g)
                    == spec_unsub_result(old(self).topic_handler.subscribers_of(g), g, cur, client_id@) by {
                    if g == filters_model[i as int].topic_filter {
                        assert(self.topic_handler.subscribers_of(g) == spec_remove_client(
                            mid.subscribers_of(g),
                            client_id@,
                        ));
                    } else {
                        assert(self.topic_handler.subscribers_of(g) == mid.subscribers_of(g));
                    }
                }
            }
            i = i + 1;
        }
        let unsuback_packet = ControlPacket::unsuback(
            control_packet.variable_header().packet_identifier_opt(),
            reason_codes,
        );
        let mut outputs: Vec<OutboundMessage> = Vec::new();
        outputs.push(OutboundMessage { recipients: vec![socket], packet: unsuback_packet });
        proof {
            assert(filters_model.subrange(0, n as int) =~= filters_model);
            assert(spec_outs(outputs@) =~~= seq![
                OutboundModel {
                    recipients: seq![socket],
                    packet: spec_sub_ack_model(
                        ControlPacketType::UNSUBACK,
                        control_packet@.variable_header->0.packet_identifier,
                        Seq::new(filters_model.len(), |i: int| ReasonCode::Success),
                    ),
                },
            ]);
        }
        Ok(outputs)
    }

    /// Dispatch one inbound packet to its handler.  Packet types the server
    /// does not react to (RESERVED, CONNACK, PUBACK, PUBCOMP, SUBACK,
    /// UNSUBACK, PINGRESP, AUTH) change nothing and emit nothing.
    pub fn process_message(&mut self, socket: u64, control_packet: &ControlPacket) -> (r: Result<Vec<OutboundMessage>, DispatchError>)
        requires
            old(self).wf(),
            spec_dispatchable(control_packet@),
        ensures
            final(self).wf(),
            match control_packet@.fixed_header.packet_type {
                ControlPacketType::CONNECT => r matches Ok(outs) && spec_connect_exists(
                    *old(self),
                    *final(self),
                    socket,
                    control_packet@,
                    spec_outs(outs@),
                ),
                ControlPacketType::PUBLISH => match r {
                    Ok(outs) => spec_publish_post(
                        *old(self),
                        *final(self),
                        socket,
                        control_packet@,
                        spec_outs(outs@),
                    ),
                    Err(e) => e == DispatchError::ClientNotRegistered && spec_lookup_client(
                        old(self).client_handler.pairs(),
                        socket,
                    ) is None && *final(self) == *old(self),
                },
                ControlPacketType::PUBREC => match r {
                    Ok(outs) => {
                        &&& final(self).client_handler == old(self).client_handler
                        &&& final(self).topic_handler == old(self).topic_handler
                        &&& spec_lookup_client(old(self).client_handler.pairs(), socket) matches Some(cid)
                            && final(self).sessions.store.pubrec_view() == old(
                            self,
                        ).sessions.store.pubrec_view().push((cid, spec_identifier(control_packet@)))
                        &&& spec_outs(outs@) == seq![
                            OutboundModel {
                                recipients: seq![socket],
                                packet: spec_ack_packet(
                                    ControlPacketType::PUBREL,
                                    seq![false, false, true, false],
                                    control_packet@.variable_header->0.packet_identifier,
                                ),
                            },
                        ]
                    },
                    Err(e) => e == DispatchError::ClientNotRegistered && spec_lookup_client(
                        old(self).client_handler.pairs(),
                        socket,
                    ) is None && *final(self) == *old(self),
                },
                ControlPacketType::PUBREL => match r {
                    Ok(outs) => {
                        &&& final(self).client_handler == old(self).client_handler
                        &&& final(self).topic_handler == old(self).topic_handler
                        &&& spec_lookup_client(old(self).client_handler.pairs(), socket) matches Some(cid)
                            && final(self).sessions.store.pubrel_view() == old(
                            self,
                        ).sessions.store.pubrel_view().push((cid, spec_identifier(control_packet@)))
                        &&& spec_outs(outs@) == seq![
                            OutboundModel {
                                recipients: seq![socket],
                                packet: spec_ack_packet(
                                    ControlPacketType::PUBCOMP,
                                    spec_zero_flags(),
                                    control_packet@.variable_header->0.packet_identifier,
                                ),
                            },
                        ]
                    },
                    Err(e) => e == DispatchError::ClientNotRegistered && spec_lookup_client(
                        old(self).client_handler.pairs(),
                        socket,
                    ) is None && *final(self) == *old(self),
                },
                ControlPacketType::SUBSCRIBE => match r {
                    Ok(outs) => {
                        &&& final(self).client_handler == old(self).client_handler
                        &&& final(self).sessions == old(self).sessions
                        &&& spec_lookup_client(old(self).client_handler.pairs(), socket) matches Some(cid)
                            && (forall|g: Seq<char>|
                            #[trigger] final(self).topic_handler.subscribers_of(g) == spec_sub_result(
                                old(self).topic_handler.subscribers_of(g),
                                g,
                                spec_packet_filters(control_packet@),
                                cid,
                            ))
                        &&& spec_outs(outs@) == seq![
                            OutboundModel {
                                recipients: seq![socket],
                                packet: spec_sub_ack_model(
                                    ControlPacketType::SUBACK,
                                    control_packet@.variable_header->0.packet_identifier,
                                    Seq::new(
                                        spec_packet_filters(control_packet@).len(),
                                        |i: int| ReasonCode::GrantedQoS0,
                                    ),
                                ),
                            },
                        ]
                    },
                    Err(e) => e == DispatchError::ClientNotRegistered && spec_lookup_client(
                        old(self).client_handler.pairs(),
                        socket,
                    ) is None && *final(self) == *old(self),
                },
                ControlPacketType::UNSUBSCRIBE => match r {
                    Ok(outs) => {
                        &&& final(self).client_handler == old(self).client_handler
                        &&& final(self).sessions == old(self).sessions
                        &&& spec_lookup_client(old(self).client_handler.pairs(), socket) matches Some(cid)
                            && (forall|g: Seq<char>|
                            #[trigger] final(self).topic_handler.subscribers_of(g) == spec_unsub_result(
                                old(self).topic_handler.subscribers_of(g),
                                g,
                                spec_packet_filters(control_packet@),
                                cid,
                            ))
                        &&& spec_outs(outs@) == seq![
                            OutboundModel {
                                recipients: seq![socket],
                                packet: spec_sub_ack_model(
                                    ControlPacketType::UNSUBACK,
                                    control_packet@.variable_header->0.packet_identifier,
                                    Seq::new(
                                        spec_packet_filters(control_packet@).len(),
                                        |i: int| ReasonCode::Success,
                                    ),
                                ),
                            },
                        ]
                    },
                    Err(e) => e == DispatchError::ClientNotRegistered && spec_lookup_client(
                        old(self).client_handler.pairs(),
                        socket,
                    ) is None && *final(self) == *old(self),
                },
                ControlPacketType::PINGREQ => match r {
                    Ok(outs) => *final(self) == *old(self) && spec_lookup_client(
                        old(self).client_handler.pairs(),
                        socket,
                    ) is Some && spec_outs(outs@) == seq![
                        OutboundModel { recipients: seq![socket], packet: spec_pingresp_model() },
                    ],
                    Err(e) => e == DispatchError::ClientNotRegistered && spec_lookup_client(
                        old(self).client_handler.pairs(),
                        socket,
                    ) is None && *final(self) == *old(self),
                },
                ControlPacketType::DISCONNECT => match r {
                    Ok(outs) => {
                        &&& final(self).topic_handler == old(self).topic_handler
                        &&& final(self).sessions == old(self).sessions
                        &&& spec_lookup_client(old(self).client_handler.pairs(), socket) matches Some(cid)
                            && final(self).client_handler.pairs() == spec_filter_pairs(
                            old(self).client_handler.pairs(),
                            Some(socket),
                            Some(cid),
                        )
                        &&& spec_outs(outs@) == seq![
                            OutboundModel {
                                recipients: seq![socket],
                                packet: spec_disconnect_model(ReasonCode::NormalDisconnection),
                            },
                        ]
                    },
                    Err(e) => e == DispatchError::ClientNotRegistered && spec_lookup_client(
                        old(self).client_handler.pairs(),
                        socket,
                    ) is None && *final(self) == *old(self),
                },
                _ => r matches Ok(outs) && outs@.len() == 0 && *final(self) == *old(self),
            },
    {
        match control_packet.fixed_header().packet_type() {
            ControlPacketType::CONNECT => Ok(self.process_connect(socket, control_packet)),
            ControlPacketType::PUBLISH => self.process_publish(socket, control_packet),
            ControlPacketType::PUBREC => self.process_pubrec(socket, control_packet),
            ControlPacketType::PUBREL => self.process_pubrel(socket, control_packet),
            ControlPacketType::SUBSCRIBE => self.process_subscribe(socket, control_packet),
            ControlPacketType::UNSUBSCRIBE => self.process_unsubscribe(socket, control_packet),
            ControlPacketType::PINGREQ => self.process_pingreq(socket),
            ControlPacketType::DISCONNECT => self.process_disconnect(socket),
            _ => Ok(Vec::new()),
        }
    }
}

} // verus!
