use mqtt_broker::client_handler::ClientHandler;
use mqtt_broker::control_packet::ControlPacket;
use mqtt_broker::broker_utils::{SessionRegistry, SessionState, generate_client_id, persist_packets, register_clean_session, register_session};
use mqtt_broker::qos_level::QoSLevel;
use mqtt_broker::session::Session;
use mqtt_broker::topic_handler::TopicHandler;

#[test]
fn test_registry_pair_consistency() {
    let mut clients = ClientHandler::new();
    let id = String::from("C");
    assert!(clients.register(1, &id).is_none());
    assert_eq!(clients.get_client_id(1).unwrap(), "C");
    assert_eq!(clients.get_socket(&id).unwrap(), 1);
    clients.unregister(1, &id);
    assert!(clients.get_client_id(1).is_err());
    assert!(clients.get_socket(&id).is_err());
}

#[test]
fn test_register_returns_previous_socket() {
    let mut clients = ClientHandler::new();
    let id = String::from("C");
    assert!(clients.register(1, &id).is_none());
    assert_eq!(clients.register(2, &id), Some(1));
    assert_eq!(clients.get_socket(&id).unwrap(), 2);
    assert!(clients.get_client_id(1).is_err());
}

#[test]
fn test_unregister_by_socket_returns_client() {
    let mut clients = ClientHandler::new();
    let id = String::from("C");
    clients.register(5, &id);
    assert_eq!(clients.unregister_by_socket(5).unwrap(), "C");
    assert!(clients.unregister_by_socket(5).is_none());
}

#[test]
fn test_subscribe_idempotence() {
    let mut topics = TopicHandler::new();
    let client = String::from("C");
    let filter = String::from("test/qos1");
    topics.subscribe(&client, &filter);
    topics.subscribe(&client, &filter);
    let subscribers = topics.find_subscribers(&filter);
    assert_eq!(subscribers.len(), 1);
    assert_eq!(subscribers[0], "C");
}

#[test]
fn test_unsubscribe_removes_membership() {
    let mut topics = TopicHandler::new();
    let a = String::from("A");
    let b = String::from("B");
    let filter = String::from("f");
    topics.subscribe(&a, &filter);
    topics.subscribe(&b, &filter);
    topics.unsubscribe(&a, &filter);
    let subscribers = topics.find_subscribers(&filter);
    assert_eq!(subscribers, vec![String::from("B")]);
}

#[test]
fn test_unsubscribe_all_totality() {
    let mut topics = TopicHandler::new();
    let client = String::from("C");
    let other = String::from("D");
    let f1 = String::from("f/1");
    let f2 = String::from("f/2");
    topics.subscribe(&client, &f1);
    topics.subscribe(&other, &f1);
    topics.subscribe(&client, &f2);
    topics.unsubscribe_all(&client);
    assert_eq!(topics.find_subscribers(&f1), vec![String::from("D")]);
    assert!(topics.find_subscribers(&f2).is_empty());
}

#[test]
fn test_find_subscribers_keeps_subscription_order() {
    let mut topics = TopicHandler::new();
    let filter = String::from("f");
    topics.subscribe(&String::from("A"), &filter);
    topics.subscribe(&String::from("B"), &filter);
    topics.subscribe(&String::from("A"), &filter);
    assert_eq!(topics.find_subscribers(&filter), vec![String::from("A"), String::from("B")]);
}

#[test]
fn test_session_acknowledgment_tracking() {
    let mut session = Session::new();
    let client = String::from("C");
    let puback = ControlPacket::puback(Some(42));
    assert!(!session.is_puback_complete(client.clone(), &puback));
    session.register_puback(client.clone(), &puback);
    assert!(session.is_puback_complete(client.clone(), &puback));
    assert!(!session.is_pubrel_complete(client.clone(), &puback));
    let pubrel = ControlPacket::pubrel(Some(42));
    session.register_pubrel(client.clone(), &pubrel);
    assert!(session.is_pubrel_complete(client.clone(), &pubrel));
    assert!(!session.is_pubrec_complete(client, &pubrel));
}

#[test]
fn test_session_register_publish_by_qos() {
    let mut session = Session::new();
    let client = String::from("C");
    let qos0 = ControlPacket::publish(None, Some(String::from("t")), false, QoSLevel::AtMostOnce, false);
    let qos1 = ControlPacket::publish(Some(1), Some(String::from("t")), false, QoSLevel::AtLeastOnce, false);
    let qos2 = ControlPacket::publish(Some(2), Some(String::from("t")), false, QoSLevel::ExactlyOnce, false);
    session.register_publish(client.clone(), &qos0);
    session.register_publish(client.clone(), &qos1);
    session.register_publish(client, &qos2);
    assert_eq!(session.qos0_log.len(), 1);
    assert_eq!(session.qos1_store.len(), 1);
    assert_eq!(session.qos2_store.len(), 1);
    assert_eq!(session.qos1_store[0].1, 1);
    assert_eq!(session.qos2_store[0].1, 2);
}

#[test]
fn test_register_session_reports_presence() {
    let mut registry = SessionRegistry::new();
    let id = String::from("C");
    assert_eq!(register_session(&mut registry, &id), SessionState::CleanSession);
    assert_eq!(register_session(&mut registry, &id), SessionState::SessionPresent);
}

#[test]
fn test_register_clean_session_scrubs_client() {
    let mut registry = SessionRegistry::new();
    let id = String::from("C");
    let other = String::from("D");
    let qos1 = ControlPacket::publish(Some(7), Some(String::from("t")), false, QoSLevel::AtLeastOnce, false);
    let subscribers = vec![id.clone(), other.clone()];
    persist_packets(&mut registry, &subscribers, &qos1);
    assert_eq!(registry.store.qos1_store.len(), 2);
    register_clean_session(&mut registry, &id);
    assert_eq!(registry.store.qos1_store.len(), 1);
    assert_eq!(registry.store.qos1_store[0].0, "D");
    assert_eq!(register_session(&mut registry, &id), SessionState::SessionPresent);
}

#[test]
fn test_generate_client_id_nonempty() {
    let a = generate_client_id();
    assert!(!a.is_empty());
}
