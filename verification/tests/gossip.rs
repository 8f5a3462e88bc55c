use borsh::BorshSerialize;
use intent_client::builder::craft;
use intent_client::encoder::{decode, encode};
use intent_client::error::Error;
use intent_client::gossip::{ConnState, Connection, Intent, Response, RpcMessage};
use intent_client::intent::{Address, Amount, Decimal};
use intent_client::keystore::KeyStore;
use intent_client::signing::Keypair;

fn address(text: &str) -> Address {
    Address::new(text.to_string())
}

fn crafted_bytes() -> Vec<u8> {
    let mut store = KeyStore::new();
    store.insert(address("A"), Keypair::from_secret([9u8; 32]));
    let signed = craft(
        &store,
        address("A"),
        address("XAN"),
        Amount::new(100),
        Decimal::new(5, 1),
        address("BTC"),
        Amount::new(40),
    )
    .unwrap();
    encode(&signed).unwrap()
}

/// A node that acknowledges every intent message and nothing else.
fn mock_node(frame: &[u8]) -> Option<Vec<u8>> {
    match decode::<RpcMessage>(frame) {
        Ok(RpcMessage::IntentMessage { .. }) => Some(b"ok".to_vec()),
        _ => None,
    }
}

fn connected() -> Connection {
    let mut connection = Connection::new();
    connection.begin_connect().unwrap();
    connection.finish_connect(true).unwrap();
    connection
}

#[test]
fn submit_scenario() {
    let mut connection = connected();
    let message = connection.submit_intent(crafted_bytes(), "market-1".to_string()).unwrap();
    let reply = mock_node(&encode(&message).unwrap());
    let response = connection.receive(reply);
    assert_eq!(response, Ok(Response { ack: b"ok".to_vec() }));
    assert_eq!(connection.state(), ConnState::Connected);
}

#[test]
fn submit_builds_the_intent_message() {
    let connection = connected();
    let message = connection.submit_intent(vec![1, 2, 3], "market-1".to_string()).unwrap();
    assert_eq!(
        message,
        RpcMessage::IntentMessage { payload: vec![1, 2, 3], topic: "market-1".to_string() }
    );
    assert_eq!(message, RpcMessage::new_intent(Intent::new(vec![1, 2, 3], "market-1".to_string())));
}

#[test]
fn subscribe_builds_the_topic_message() {
    let mut connection = connected();
    let message = connection.subscribe("market-1".to_string()).unwrap();
    assert_eq!(message, RpcMessage::TopicMessage { topic: "market-1".to_string() });
    assert_eq!(message, RpcMessage::new_topic("market-1".to_string()));
    assert_eq!(connection.receive(Some(vec![7])), Ok(Response { ack: vec![7] }));
}

#[test]
fn connection_walks_through_its_states() {
    let mut connection = Connection::new();
    assert_eq!(connection.state(), ConnState::Disconnected);
    assert_eq!(connection.begin_connect(), Ok(()));
    assert_eq!(connection.state(), ConnState::Connecting);
    assert_eq!(connection.finish_connect(true), Ok(()));
    assert_eq!(connection.state(), ConnState::Connected);
    connection.close();
    assert_eq!(connection.state(), ConnState::Closed);
}

#[test]
fn failed_connect_is_contained() {
    let mut connection = Connection::new();
    connection.begin_connect().unwrap();
    assert_eq!(connection.finish_connect(false), Err(Error::ConnectionError));
    assert_eq!(connection.state(), ConnState::Errored);
    assert_eq!(
        connection.submit_intent(crafted_bytes(), "market-1".to_string()),
        Err(Error::NotConnected)
    );
    assert_eq!(connection.subscribe("market-1".to_string()), Err(Error::NotConnected));
    assert_eq!(connection.receive(Some(vec![1])), Err(Error::NotConnected));
    assert_eq!(connection.begin_connect(), Err(Error::ConnectionError));
    assert_eq!(connection.finish_connect(true), Err(Error::ConnectionError));
    connection.close();
    assert_eq!(connection.state(), ConnState::Errored);
}

#[test]
fn requests_need_a_connected_connection() {
    let mut connection = Connection::new();
    assert_eq!(connection.subscribe("t".to_string()), Err(Error::NotConnected));
    assert_eq!(connection.submit_intent(vec![], "t".to_string()), Err(Error::NotConnected));
    connection.begin_connect().unwrap();
    assert_eq!(connection.subscribe("t".to_string()), Err(Error::NotConnected));
    assert_eq!(connection.receive(None), Err(Error::NotConnected));
    assert_eq!(connection.state(), ConnState::Connecting);
    connection.finish_connect(true).unwrap();
    connection.close();
    assert_eq!(connection.subscribe("t".to_string()), Err(Error::NotConnected));
    assert_eq!(connection.state(), ConnState::Closed);
}

#[test]
fn transport_failure_ends_the_connection() {
    let mut connection = connected();
    connection.subscribe("market-1".to_string()).unwrap();
    assert_eq!(connection.receive(None), Err(Error::TransportError));
    assert_eq!(connection.state(), ConnState::Errored);
    assert_eq!(connection.subscribe("market-1".to_string()), Err(Error::NotConnected));
}

#[test]
fn a_connection_is_connected_at_most_once() {
    let mut connection = connected();
    assert_eq!(connection.begin_connect(), Err(Error::ConnectionError));
    assert_eq!(connection.finish_connect(false), Err(Error::ConnectionError));
    assert_eq!(connection.state(), ConnState::Connected);
    let mut fresh = Connection::new();
    assert_eq!(fresh.finish_connect(true), Err(Error::ConnectionError));
    assert_eq!(fresh.state(), ConnState::Disconnected);
    fresh.close();
    assert_eq!(fresh.state(), ConnState::Disconnected);
}

#[test]
fn messages_encode_to_the_expected_bytes() {
    let intent = RpcMessage::IntentMessage { payload: vec![1, 2, 3], topic: "market-1".to_string() };
    let mut expected = vec![0u8, 3, 0, 0, 0, 1, 2, 3, 8, 0, 0, 0];
    expected.extend_from_slice(b"market-1");
    assert_eq!(encode(&intent), Ok(expected));
    let topic = RpcMessage::TopicMessage { topic: "market-1".to_string() };
    let mut expected = vec![1u8, 8, 0, 0, 0];
    expected.extend_from_slice(b"market-1");
    assert_eq!(encode(&topic), Ok(expected));
}

#[test]
fn message_fields_are_in_the_borsh_layout() {
    let payload = crafted_bytes();
    let message = RpcMessage::IntentMessage { payload: payload.clone(), topic: "t".to_string() };
    let mut expected = 0u8.try_to_vec().unwrap();
    expected.extend_from_slice(&payload.try_to_vec().unwrap());
    expected.extend_from_slice(&"t".to_string().try_to_vec().unwrap());
    assert_eq!(encode(&message).unwrap(), expected);
}

#[test]
fn messages_round_trip() {
    let intent = RpcMessage::IntentMessage { payload: crafted_bytes(), topic: "market-1".to_string() };
    assert_eq!(decode::<RpcMessage>(&encode(&intent).unwrap()), Ok(intent));
    let empty = RpcMessage::IntentMessage { payload: vec![], topic: String::new() };
    assert_eq!(decode::<RpcMessage>(&encode(&empty).unwrap()), Ok(empty));
    let topic = RpcMessage::TopicMessage { topic: "market-1".to_string() };
    assert_eq!(decode::<RpcMessage>(&encode(&topic).unwrap()), Ok(topic));
}

#[test]
fn unknown_or_broken_messages_are_malformed() {
    assert_eq!(decode::<RpcMessage>(&[]), Err(Error::MalformedData));
    assert_eq!(decode::<RpcMessage>(&[2, 0, 0, 0, 0]), Err(Error::MalformedData));
    assert_eq!(decode::<RpcMessage>(&[1, 1, 0, 0, 0]), Err(Error::MalformedData));
    assert_eq!(decode::<RpcMessage>(&[1, 0, 0, 0, 0, 0]), Err(Error::MalformedData));
    assert_eq!(decode::<RpcMessage>(&[0, 0, 0, 0, 0]), Err(Error::MalformedData));
    assert_eq!(decode::<RpcMessage>(&[1, 1, 0, 0, 0, 0x80]), Err(Error::MalformedData));
}
