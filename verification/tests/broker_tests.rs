use mqtt_broker::broker_utils::SessionRegistry;
use mqtt_broker::client_handler::ClientHandler;
use mqtt_broker::control_packet::ControlPacket;
use mqtt_broker::fixed_header::{ControlPacketType, FixedHeader};
use mqtt_broker::packet_dispatcher::{OutboundMessage, PacketDispatcher};
use mqtt_broker::qos_level::QoSLevel;
use mqtt_broker::reason_code::ReasonCode;
use mqtt_broker::topic_handler::TopicHandler;
use mqtt_broker::variable_header::ConnectFlags;

fn spinup_dispatcher() -> PacketDispatcher {
    PacketDispatcher::new(ClientHandler::new(), TopicHandler::new(), SessionRegistry::new())
}

fn create_connect_packet(client_id: String) -> ControlPacket {
    ControlPacket::connect(
        ConnectFlags::new(false, false, false, QoSLevel::AtMostOnce, false, true, false),
        None,
        vec![],
        Some(client_id),
        None,
        None,
        None,
        None,
        None,
    )
}

fn create_subscribe_packet(packet_identifier: u16, topic_filter: String, maximum_qos: QoSLevel) -> ControlPacket {
    ControlPacket::subscribe(Some(packet_identifier), topic_filter, maximum_qos)
}

fn create_publish_packet_qos1(packet_identifier: u16, topic_name: String) -> ControlPacket {
    ControlPacket::publish(Some(packet_identifier), Some(topic_name), false, QoSLevel::AtLeastOnce, false)
}

fn send_packet_to_broker(dispatcher: &mut PacketDispatcher, socket: u64, packet: &ControlPacket) -> Vec<OutboundMessage> {
    dispatcher.process_message(socket, packet).expect("can't dispatch packet")
}

#[test]
fn simulate_connect() {
    let tx_socket: u64 = 1;
    let mut dispatcher = spinup_dispatcher();
    let connect_packet = create_connect_packet(String::from("simulate_connect"));
    let outputs = send_packet_to_broker(&mut dispatcher, tx_socket, &connect_packet);
    assert_eq!(outputs.len(), 1);
    assert_eq!(outputs[0].recipients, vec![tx_socket]);
    assert_eq!(outputs[0].packet.fixed_header.packet_type, ControlPacketType::CONNACK);
    let ack_flags = outputs[0].packet.variable_header.as_ref().unwrap().connect_acknowledge_flags.unwrap();
    assert!(!ack_flags.session_present);
}

#[test]
fn simulate_subscribe_unsubscribe() {
    let tx_socket: u64 = 1;
    let topic = String::from("test/qos1");
    let mut dispatcher = spinup_dispatcher();

    let connect_packet = create_connect_packet(String::from("simulate_subscribe_unsubscribe"));
    send_packet_to_broker(&mut dispatcher, tx_socket, &connect_packet);

    let subscribe_packet = create_subscribe_packet(0, topic.clone(), QoSLevel::AtLeastOnce);
    let outputs = send_packet_to_broker(&mut dispatcher, tx_socket, &subscribe_packet);
    assert_eq!(outputs.len(), 1);
    assert_eq!(outputs[0].recipients, vec![tx_socket]);
    assert_eq!(outputs[0].packet.fixed_header.packet_type, ControlPacketType::SUBACK);
    let vh = outputs[0].packet.variable_header.as_ref().unwrap();
    assert_eq!(vh.packet_identifier, Some(0));
    let codes = outputs[0].packet.payload.as_ref().unwrap().reason_codes.as_ref().unwrap();
    assert_eq!(codes, &vec![ReasonCode::GrantedQoS0]);
}

#[test]
fn simulate_publish_qos1() {
    let tx_socket: u64 = 1;
    let rx_socket: u64 = 2;
    let topic = String::from("test/qos1");
    let mut dispatcher = spinup_dispatcher();

    let connect_packet = create_connect_packet(String::from("simulate_publish_qos1_tx"));
    send_packet_to_broker(&mut dispatcher, tx_socket, &connect_packet);

    let connect_packet = create_connect_packet(String::from("simulate_publish_qos1_rx"));
    send_packet_to_broker(&mut dispatcher, rx_socket, &connect_packet);

    let subscribe_packet = create_subscribe_packet(0, topic.clone(), QoSLevel::AtLeastOnce);
    send_packet_to_broker(&mut dispatcher, rx_socket, &subscribe_packet);

    let publish_packet = create_publish_packet_qos1(0, topic);
    let outputs = send_packet_to_broker(&mut dispatcher, tx_socket, &publish_packet);
    assert_eq!(outputs.len(), 2);

    let puback_packet = &outputs[0];
    assert_eq!(puback_packet.recipients, vec![tx_socket]);
    assert_eq!(puback_packet.packet.fixed_header.packet_type, ControlPacketType::PUBACK);
    assert_eq!(
        puback_packet.packet.variable_header.as_ref().unwrap().packet_identifier,
        publish_packet.variable_header.as_ref().unwrap().packet_identifier
    );

    let fanout = &outputs[1];
    assert_eq!(fanout.recipients, vec![rx_socket]);
    assert!(!fanout.recipients.contains(&tx_socket));
    assert_eq!(fanout.packet.fixed_header.qos_level, Some(QoSLevel::AtLeastOnce));
    assert_eq!(fanout.packet.fixed_header.packet_type, ControlPacketType::PUBLISH);
}

#[test]
fn simulate_session_takeover() {
    let first_socket: u64 = 1;
    let second_socket: u64 = 2;
    let mut dispatcher = spinup_dispatcher();

    let connect_packet = create_connect_packet(String::from("C"));
    send_packet_to_broker(&mut dispatcher, first_socket, &connect_packet);

    let outputs = send_packet_to_broker(&mut dispatcher, second_socket, &connect_packet);
    assert_eq!(outputs.len(), 2);
    assert_eq!(outputs[0].recipients, vec![first_socket]);
    assert_eq!(outputs[0].packet.fixed_header.packet_type, ControlPacketType::DISCONNECT);
    assert_eq!(
        outputs[0].packet.variable_header.as_ref().unwrap().reason_code,
        Some(ReasonCode::SessionTakenOver)
    );
    assert_eq!(outputs[1].recipients, vec![second_socket]);
    assert_eq!(outputs[1].packet.fixed_header.packet_type, ControlPacketType::CONNACK);
    // clean_start is set, so no prior session survives the takeover.
    let ack_flags = outputs[1].packet.variable_header.as_ref().unwrap().connect_acknowledge_flags.unwrap();
    assert!(!ack_flags.session_present);
}

#[test]
fn simulate_qos2_handshake() {
    let socket: u64 = 1;
    let mut dispatcher = spinup_dispatcher();
    send_packet_to_broker(&mut dispatcher, socket, &create_connect_packet(String::from("publisher")));

    let publish_packet = ControlPacket::publish(
        Some(42),
        Some(String::from("test/qos2")),
        false,
        QoSLevel::ExactlyOnce,
        false,
    );
    let outputs = send_packet_to_broker(&mut dispatcher, socket, &publish_packet);
    assert_eq!(outputs[0].packet.fixed_header.packet_type, ControlPacketType::PUBREC);
    assert_eq!(outputs[0].packet.variable_header.as_ref().unwrap().packet_identifier, Some(42));

    let pubrel_packet = ControlPacket::pubrel(Some(42));
    let outputs = send_packet_to_broker(&mut dispatcher, socket, &pubrel_packet);
    assert_eq!(outputs.len(), 1);
    assert_eq!(outputs[0].recipients, vec![socket]);
    assert_eq!(outputs[0].packet.fixed_header.packet_type, ControlPacketType::PUBCOMP);
    assert_eq!(outputs[0].packet.variable_header.as_ref().unwrap().packet_identifier, Some(42));
}

#[test]
fn simulate_pingreq() {
    let socket: u64 = 1;
    let mut dispatcher = spinup_dispatcher();
    send_packet_to_broker(&mut dispatcher, socket, &create_connect_packet(String::from("pinger")));

    let pingreq_packet = ControlPacket::new(
        FixedHeader::new(ControlPacketType::PINGREQ, vec![false, false, false, false], 0),
        None,
        None,
    );
    let outputs = send_packet_to_broker(&mut dispatcher, socket, &pingreq_packet);
    assert_eq!(outputs.len(), 1);
    assert_eq!(outputs[0].recipients, vec![socket]);
    assert_eq!(outputs[0].packet.fixed_header.packet_type, ControlPacketType::PINGRESP);
    assert!(outputs[0].packet.variable_header.is_none());
    assert!(outputs[0].packet.payload.is_none());
    // On the wire the answer is the two-byte fixed header alone.
    assert_eq!(mqtt_broker::encoder::encode_packet(&outputs[0].packet).unwrap().len(), 2);
}

#[test]
fn simulate_disconnect_and_generated_client_id() {
    let socket: u64 = 1;
    let mut dispatcher = spinup_dispatcher();

    // A CONNECT without a client identifier gets a generated one.
    let connect_packet = ControlPacket::connect(
        ConnectFlags::new(false, false, false, QoSLevel::AtMostOnce, false, true, false),
        None,
        vec![],
        None,
        None,
        None,
        None,
        None,
        None,
    );
    let outputs = send_packet_to_broker(&mut dispatcher, socket, &connect_packet);
    assert_eq!(outputs[0].packet.fixed_header.packet_type, ControlPacketType::CONNACK);
    let generated = dispatcher.client_handler.get_client_id(socket).unwrap();
    assert!(!generated.is_empty());

    let disconnect_packet = ControlPacket::disconnect(ReasonCode::NormalDisconnection);
    let outputs = dispatcher.process_message(socket, &disconnect_packet).unwrap();
    assert_eq!(outputs.len(), 1);
    assert_eq!(outputs[0].packet.fixed_header.packet_type, ControlPacketType::DISCONNECT);
    assert!(dispatcher.client_handler.get_client_id(socket).is_err());

    // Unregistered senders have their packets refused.
    let publish_packet = create_publish_packet_qos1(0, String::from("t"));
    assert!(dispatcher.process_message(socket, &publish_packet).is_err());
}
