//! What a client puts on the wire.

use std::time::Duration;

use sparkplug_mqtt::sparkplug::client::publish::{count_publish, proto_metrics, settle_publish};
use sparkplug_mqtt::sparkplug::topic::ids::OwnedEdgeNode;
use sparkplug_mqtt::sparkplug::types::wire_options;
use sparkplug_mqtt::{
    decode_payload, metric, mqtt_options, DataType, DeliveryTracker, DeviceId, Draft, EdgeNode,
    EdgeNodeId, GroupId, Health, HostId, Identity, LoopEvent, Message, MessageType, Metric,
    MetricValue, MqttConfig, Namespace, Outgoing, QoS, Role, SparkplugClient, SparkplugError,
    SparkplugTopic, Timestamp, Transport,
};

fn refused() -> rumqttc::ClientError {
    rumqttc::ClientError::Request(rumqttc::Request::Disconnect(rumqttc::Disconnect))
}

fn config() -> MqttConfig {
    MqttConfig {
        broker_url: "localhost".to_owned(),
        broker_port: 1883,
        transport: Transport::Tcp,
        username: String::new(),
        password: String::new(),
        client_id: Some("stax-publisher-7".to_owned()),
        version: "spBv1.0".to_owned(),
    }
}

/// A client that borrows the edge node of every publish.
fn publisher() -> SparkplugClient {
    SparkplugClient::new(Namespace::sparkplug_b(), Identity::Publisher)
}

/// Name one edge node from two literals, checking both segments.
fn edge_node_named<'a>(group: &'a str, edge_node_id: &'a str) -> EdgeNode<'a> {
    EdgeNode::new(
        GroupId::new(group).expect("group id"),
        EdgeNodeId::new(edge_node_id).expect("edge node id"),
    )
}

/// A client that speaks for `edge_node`.
fn edge_node(edge_node: EdgeNode<'_>) -> SparkplugClient {
    SparkplugClient::new(
        Namespace::sparkplug_b(),
        Identity::EdgeNode(OwnedEdgeNode::from(edge_node)),
    )
}

fn float(value: f64) -> MetricValue {
    MetricValue::Float(value.to_bits())
}

fn ddata_topic(client: &SparkplugClient) -> SparkplugTopic {
    client.namespace().ddata(
        GroupId::new("PlantFloor").expect("group id"),
        EdgeNodeId::new("edge_node_1").expect("edge node id"),
        DeviceId::new("pump_3").expect("device id"),
    )
}

/// Start a draft that no other publish holds up.
fn started(client: &mut SparkplugClient, draft: Draft) -> Outgoing {
    assert!(client.has_room());
    client
        .start(draft)
        .unwrap_or_else(|_| panic!("nothing holds the lock"))
}

/// Publish a draft that the MQTT client takes.
fn sent(client: &mut SparkplugClient, draft: Draft) -> Message {
    let outgoing = started(client, draft);
    client
        .settle(outgoing.in_flight, Ok(()))
        .expect("the publish must be accepted");
    outgoing.message
}

/// Publish both births, which the MQTT client takes.
fn births(client: &mut SparkplugClient, device: &str) -> [Message; 2] {
    let draft = client
        .publish_birth(DeviceId::new(device).expect("device id"))
        .expect("the client owns an edge node");
    let nbirth = client.start_birth(&draft).expect("nothing holds the lock");
    let dbirth = client
        .continue_birth(&draft, nbirth.in_flight, Ok(()))
        .expect("the NBIRTH was taken");
    client
        .settle(dbirth.in_flight, Ok(()))
        .expect("the births must be accepted");
    [nbirth.message, dbirth.message]
}

fn one_metric(client: &SparkplugClient, group: &str, node: &str) -> Draft {
    client
        .publish_metric(group, node, "pump_3", "temperature", float(1.0), 0)
        .expect("every segment is usable")
}

fn seq_of(message: &Message) -> u64 {
    decode_payload(&message.payload)
        .expect("the client must send a payload that decodes")
        .seq
        .expect("every Sparkplug payload carries a seq")
}

/// Publish one metric on behalf of one edge node, and read its `seq`.
fn publish_one(client: &mut SparkplugClient, group: &str, node: &str) -> u64 {
    let draft = one_metric(client, group, node);
    seq_of(&sent(client, draft))
}

fn flush(client: &mut SparkplugClient) -> Result<(), SparkplugError> {
    let window = client.open_flush();
    let drained = client.is_drained();
    assert!(client.can_report(&window));
    client.flush(window, drained, Duration::from_millis(50))
}

// ---------------------------------------------------------------------------
// Counting one publish
// ---------------------------------------------------------------------------

#[test]
fn a_publish_is_counted_before_the_client_sees_it() {
    let mut delivery = DeliveryTracker::new();
    let options = wire_options(Role::Publisher, MessageType::DDATA);

    let in_flight = count_publish(&mut delivery, options);
    assert_eq!(
        delivery.unacked(),
        1,
        "a flush that runs while the publish is in flight must see it outstanding"
    );
    assert!(settle_publish(&mut delivery, in_flight, Ok(())).is_ok());
    assert_eq!(delivery.unacked(), 1);
}

#[test]
fn a_refused_publish_leaves_no_phantom_count() {
    let mut delivery = DeliveryTracker::new();
    let options = wire_options(Role::Publisher, MessageType::DDATA);

    let in_flight = count_publish(&mut delivery, options);
    let sent = settle_publish(&mut delivery, in_flight, Err(refused()));

    assert!(matches!(sent, Err(SparkplugError::Publish(_))));
    assert_eq!(
        delivery.unacked(),
        0,
        "a message the client refused must not hold a later flush open"
    );
}

#[test]
fn a_refused_publish_cannot_cancel_another_publish() {
    let mut delivery = DeliveryTracker::new();
    let options = wire_options(Role::Publisher, MessageType::DDATA);

    // The client refuses this publish, but only after a disconnect clears
    // the count and a second publish of its own starts.
    let first = count_publish(&mut delivery, options);
    delivery.record_disconnect();
    let second = count_publish(&mut delivery, options);
    settle_publish(&mut delivery, second, Ok(())).expect("the second publish must succeed");
    let refused = settle_publish(&mut delivery, first, Err(refused()));

    assert!(matches!(refused, Err(SparkplugError::Publish(_))));
    assert_eq!(
        delivery.unacked(),
        1,
        "a refused publish must not cancel the count of a publish that is still in flight"
    );
}

#[test]
fn an_untracked_publish_that_the_client_refuses_still_reports_the_error() {
    let mut delivery = DeliveryTracker::new();
    let options = wire_options(Role::EdgeNode, MessageType::DDATA);

    let in_flight = count_publish(&mut delivery, options);
    assert!(in_flight.is_none());
    let sent = settle_publish(&mut delivery, in_flight, Err(refused()));

    assert!(
        matches!(sent, Err(SparkplugError::Publish(_))),
        "a refused publish must reach the caller even when it is untracked"
    );
    assert_eq!(delivery.unacked(), 0);
}

// ---------------------------------------------------------------------------
// What reaches the wire
// ---------------------------------------------------------------------------

#[test]
fn the_batch_mapping_keeps_each_metric_name_value_and_timestamp() {
    let mapped = proto_metrics(vec![
        ("temperature".to_string(), float(23.5), 100),
        ("mode".to_string(), MetricValue::String("AUTO".into()), 200),
    ]);

    assert_eq!(mapped.len(), 2);
    assert_eq!(mapped[0].name.as_deref(), Some("temperature"));
    assert_eq!(mapped[0].timestamp, Some(100));
    assert_eq!(mapped[1].name.as_deref(), Some("mode"));
    assert_eq!(mapped[1].timestamp, Some(200));
}

#[test]
fn a_publisher_client_sends_data_at_qos_one_and_counts_it() {
    let mut client = publisher();
    let topic = ddata_topic(&client);
    let draft = client
        .publish_metric_to(&topic, "temperature", float(1.0), 0)
        .expect("the topic names an edge node");

    let publish = sent(&mut client, draft);
    assert_eq!(publish.qos, QoS::AtLeastOnce);
    assert!(!publish.retain);
    assert_eq!(
        client.unacked(),
        1,
        "a QoS 1 publish is outstanding until the broker acknowledges it"
    );
}

#[test]
fn an_edge_node_client_sends_data_at_qos_zero_and_counts_nothing() {
    let mut client = edge_node(edge_node_named("PlantFloor", "edge_node_1"));
    let topic = ddata_topic(&client);
    let draft = client
        .publish_metric_to(&topic, "temperature", float(1.0), 0)
        .expect("the topic names an edge node");

    let publish = sent(&mut client, draft);
    assert_eq!(
        publish.qos,
        QoS::AtMostOnce,
        "DDATA takes QoS 0 under the specification"
    );
    assert!(!publish.retain);
    assert_eq!(
        client.unacked(),
        0,
        "the broker never acknowledges QoS 0, so counting it would hold every \
         later flush open"
    );
}

#[test]
fn an_untracked_publish_leaves_flush_with_nothing_to_wait_for() {
    let mut client = edge_node(edge_node_named("PlantFloor", "edge_node_1"));
    let topic = ddata_topic(&client);
    let draft = client
        .publish_metric_to(&topic, "temperature", float(1.0), 0)
        .expect("the topic names an edge node");
    let _ = sent(&mut client, draft);

    flush(&mut client).expect("an untracked publish must not hold a flush open");
}

#[test]
fn the_publish_path_reads_the_message_type_from_the_topic() {
    let mut client = edge_node(edge_node_named("PlantFloor", "edge_node_1"));
    let topic = client.namespace().ncmd(
        GroupId::new("PlantFloor").expect("group id"),
        EdgeNodeId::new("edge_node_1").expect("edge node id"),
    );
    let draft = client
        .publish_metric_to(&topic, "Node Control/Rebirth", MetricValue::Bool(true), 0)
        .expect("the topic names an edge node");

    let publish = sent(&mut client, draft);
    assert_eq!(publish.topic, topic.to_string());
    assert_eq!(publish.qos, QoS::AtMostOnce);
}

#[test]
fn tracks_delivery_reports_the_role() {
    assert!(
        publisher().tracks_delivery(),
        "a publisher client publishes at QoS 1, so flush can confirm it"
    );
    assert!(
        !edge_node(edge_node_named("PlantFloor", "edge_node_1")).tracks_delivery(),
        "an edge node client publishes at QoS 0, so flush confirms nothing"
    );
}

#[test]
fn the_identity_decides_the_role_and_the_edge_node() {
    let client = publisher();
    assert_eq!(client.role(), Role::Publisher);
    assert_eq!(client.edge_node(), None);

    let client = edge_node(edge_node_named("PlantFloor", "edge_node_1"));
    assert_eq!(client.role(), Role::EdgeNode);
    assert_eq!(
        client.edge_node(),
        Some(edge_node_named("PlantFloor", "edge_node_1"))
    );
    assert_eq!(client.namespace().as_str(), "spBv1.0");
}

// ---------------------------------------------------------------------------
// The edge node an identity names
// ---------------------------------------------------------------------------

#[test]
fn a_birth_names_the_edge_node_given_at_connect_not_the_client_id() {
    assert_eq!(
        mqtt_options(&config()).client_id(),
        "stax-publisher-7",
        "the client id reaches the MQTT options and stops there"
    );

    let mut client = SparkplugClient::connect_as_edge_node(
        &config(),
        edge_node_named("PlantFloor", "edge_node_1"),
        Duration::from_secs(5),
    )
    .unwrap_or_else(|e| panic!("the namespace is usable: {e:?}"))
    .client;
    let [nbirth, dbirth] = births(&mut client, "pump_3");

    assert_eq!(
        nbirth.topic, "spBv1.0/PlantFloor/NBIRTH/edge_node_1",
        "the birth must name the edge node the client took at connect"
    );
    assert!(
        !nbirth.topic.contains("stax-publisher-7"),
        "the client id must reach no topic segment"
    );
    assert_eq!(dbirth.topic, "spBv1.0/PlantFloor/DBIRTH/edge_node_1/pump_3");
}

#[test]
fn a_publisher_client_cannot_announce_a_birth() {
    let client = publisher();
    let refused = client.publish_birth(DeviceId::new("pump_3").expect("device id"));
    assert!(
        matches!(refused, Err(SparkplugError::NotAnEdgeNode)),
        "a publisher client must refuse a birth, got: {refused:?}"
    );
}

#[test]
fn both_births_carry_one_instant() {
    let mut client = edge_node(edge_node_named("PlantFloor", "edge1"));
    let draft = client
        .publish_birth_at(DeviceId::new("pump_3").unwrap(), Timestamp(77))
        .unwrap();
    let nbirth = client.start_birth(&draft).unwrap();
    let dbirth = client
        .continue_birth(&draft, nbirth.in_flight, Ok(()))
        .unwrap();
    for message in [&nbirth.message, &dbirth.message] {
        let payload = decode_payload(&message.payload).unwrap();
        assert_eq!(payload.timestamp, Some(77));
        assert_eq!(payload.metrics[0].timestamp, Some(77));
    }
    client.settle(dbirth.in_flight, Ok(())).unwrap();
}

// ---------------------------------------------------------------------------
// What metric each path writes
// ---------------------------------------------------------------------------

const NAME: &str = "temperature";
const AT: u64 = 1_700_000_000_000;
const VALUE: f64 = 23.5;

/// Read the one metric of a message.
fn metric_sent(message: &Message) -> Metric {
    let mut metrics = decode_payload(&message.payload)
        .expect("the client must send a payload that decodes")
        .metrics;
    assert_eq!(metrics.len(), 1, "each path here sends one metric");
    metrics.remove(0)
}

fn from_named_edge_node() -> Metric {
    let mut client = publisher();
    let draft = client
        .publish_metric("PlantFloor", "edge_node_1", "pump_3", NAME, float(VALUE), AT)
        .expect("every segment is usable");
    metric_sent(&sent(&mut client, draft))
}

fn from_built_topic() -> Metric {
    let mut client = publisher();
    let topic = ddata_topic(&client);
    let draft = client
        .publish_metric_to(&topic, NAME, float(VALUE), AT)
        .expect("the topic names an edge node");
    metric_sent(&sent(&mut client, draft))
}

fn from_batch() -> Metric {
    let mut client = publisher();
    let topic = ddata_topic(&client);
    let draft = client
        .publish_metrics_to(&topic, vec![(NAME.to_string(), float(VALUE), AT)])
        .expect("the topic names an edge node");
    metric_sent(&sent(&mut client, draft))
}

fn from_named_batch() -> Metric {
    let mut client = publisher();
    let draft = client
        .publish_metrics(
            "PlantFloor",
            "edge_node_1",
            "pump_3",
            vec![(NAME.to_string(), float(VALUE), AT)],
        )
        .expect("every segment is usable");
    metric_sent(&sent(&mut client, draft))
}

#[test]
fn every_publish_path_writes_the_same_metric() {
    let named = from_named_edge_node();
    assert_eq!(named, from_built_topic());
    assert_eq!(named, from_batch());
    assert_eq!(named, from_named_batch());
}

#[test]
fn the_metric_on_the_wire_carries_the_name_datatype_and_instant() {
    let metric = from_named_edge_node();

    assert_eq!(metric.name.as_deref(), Some(NAME));
    assert_eq!(metric.datatype, Some(DataType::Double.code()));
    assert_eq!(metric.timestamp, Some(AT));
    assert_eq!(
        metric.value,
        Some(metric::Value::DoubleValue(metric::Double(VALUE.to_bits())))
    );
}

#[test]
fn a_single_metric_and_its_payload_carry_one_instant() {
    let mut client = publisher();
    let draft = client
        .publish_metric("G", "n", "d", NAME, float(VALUE), AT)
        .unwrap();
    let message = sent(&mut client, draft);
    assert_eq!(message.topic, "spBv1.0/G/DDATA/n/d");
    assert_eq!(
        decode_payload(&message.payload).unwrap().timestamp,
        Some(AT)
    );
}

#[test]
fn a_batch_carries_the_instant_the_caller_states() {
    let mut client = publisher();
    let draft = client
        .publish_metrics_at(
            "G",
            "n",
            "d",
            vec![("a".to_owned(), MetricValue::Int(1), 1), ("b".to_owned(), MetricValue::Int(2), 2)],
            Timestamp(9),
        )
        .unwrap();
    let payload = decode_payload(&sent(&mut client, draft).payload).unwrap();
    assert_eq!(payload.timestamp, Some(9));
    assert_eq!(payload.metrics[0].timestamp, Some(1));
    assert_eq!(payload.metrics[1].timestamp, Some(2));
}

#[test]
fn a_bad_segment_is_refused_before_anything_is_drawn() {
    let client = publisher();
    for (group, node, device, label) in [
        ("", "", "", "group id"),
        ("G", "a/b", "", "edge node id"),
        ("G", "n", "#", "device id"),
    ] {
        let refused = client.publish_metric(group, node, device, NAME, float(VALUE), AT);
        assert!(
            matches!(&refused, Err(SparkplugError::InvalidTopic(r)) if r.starts_with(label)),
            "got {refused:?}"
        );
    }
}

// ---------------------------------------------------------------------------
// What seq each message carries
// ---------------------------------------------------------------------------

#[test]
fn nbirth_sets_the_count_back_to_zero() {
    let mut client = edge_node(edge_node_named("PlantFloor", "edge1"));

    let mut seqs = vec![
        publish_one(&mut client, "PlantFloor", "edge1"),
        publish_one(&mut client, "PlantFloor", "edge1"),
    ];
    for birth in births(&mut client, "pump_3") {
        seqs.push(seq_of(&birth));
    }
    seqs.push(publish_one(&mut client, "PlantFloor", "edge1"));

    assert_eq!(seqs, vec![1, 2, 0, 1, 2]);
}

#[test]
fn an_nbirth_on_a_caller_built_topic_sets_the_count_back_to_zero() {
    let mut client = publisher();

    let mut seqs = vec![
        publish_one(&mut client, "PlantFloor", "edge1"),
        publish_one(&mut client, "PlantFloor", "edge1"),
    ];
    let nbirth = client.namespace().nbirth(
        GroupId::new("PlantFloor").expect("group id"),
        EdgeNodeId::new("edge1").expect("edge node id"),
    );
    let draft = client
        .publish_metric_to(&nbirth, "Node Control/Rebirth", MetricValue::Bool(false), 0)
        .expect("the topic names an edge node");
    seqs.push(seq_of(&sent(&mut client, draft)));
    seqs.push(publish_one(&mut client, "PlantFloor", "edge1"));

    assert_eq!(
        seqs,
        vec![1, 2, 0, 1],
        "an NBIRTH through the generic path must set the count back to 0"
    );
}

#[test]
fn two_edge_nodes_keep_separate_counts() {
    let mut client = publisher();
    let seqs: Vec<u64> = ["edge1", "edge2", "edge1", "edge2"]
        .iter()
        .map(|node| publish_one(&mut client, "PlantFloor", node))
        .collect();
    assert_eq!(seqs, vec![1, 1, 2, 2]);
}

#[test]
fn one_edge_node_id_in_two_groups_keeps_separate_counts() {
    let mut client = publisher();
    let seqs: Vec<u64> = ["PlantFloor", "Boiler", "PlantFloor", "Boiler"]
        .iter()
        .map(|group| publish_one(&mut client, group, "edge1"))
        .collect();
    assert_eq!(seqs, vec![1, 1, 2, 2]);
}

#[test]
fn a_metric_on_a_host_topic_is_refused() {
    let client = publisher();
    let topic = client
        .namespace()
        .state(HostId::new("scada_1").expect("host id"));

    let refused = client.publish_metric_to(&topic, "temperature", float(1.0), 0);
    assert!(
        matches!(
            &refused,
            Err(SparkplugError::InvalidTopic(reason))
                if reason == "spBv1.0/STATE/scada_1 names no edge node, so it holds no seq count"
        ),
        "a host topic names no edge node, so no seq count can stamp the metric"
    );
    assert!(client.publish_metrics_to(&topic, vec![]).is_err());
}

#[test]
fn a_birth_and_the_data_for_that_edge_node_share_one_count() {
    let mut client = edge_node(edge_node_named("PlantFloor", "edge1"));
    let mut seqs: Vec<u64> = births(&mut client, "pump_3").iter().map(seq_of).collect();
    seqs.push(publish_one(&mut client, "PlantFloor", "edge1"));
    assert_eq!(
        seqs,
        vec![0, 1, 2],
        "the births and the data of one edge node must draw from one count"
    );
}

// ---------------------------------------------------------------------------
// The lock
// ---------------------------------------------------------------------------

#[test]
fn two_tasks_that_publish_for_one_edge_node_reach_the_wire_in_order() {
    let mut client = publisher();

    let filler = publish_one(&mut client, "PlantFloor", "edge2");

    // Both publish for `edge1`. The first takes the lock and draws its
    // number. The second finds the lock held, so it draws no number yet.
    let draft = one_metric(&client, "PlantFloor", "edge1");
    let waiting = one_metric(&client, "PlantFloor", "edge1");
    let first = started(&mut client, draft);
    let waiting = client
        .start(waiting)
        .expect_err("the first publish holds the lock");

    client
        .settle(first.in_flight, Ok(()))
        .expect("the client takes the first publish");
    let second = started(&mut client, waiting);
    client
        .settle(second.in_flight, Ok(()))
        .expect("the client takes the second publish");

    assert_eq!(filler, 1, "another edge node counts alone");
    assert_eq!(
        (seq_of(&first.message), seq_of(&second.message)),
        (1, 2),
        "two tasks that publish for one edge node must reach the wire in the \
         order they drew their numbers"
    );
}

#[test]
fn a_cancelled_publish_leaves_no_gap_and_no_count() {
    let mut client = publisher();
    assert_eq!(publish_one(&mut client, "PlantFloor", "edge2"), 1);

    let draft = one_metric(&client, "PlantFloor", "edge1");
    let outgoing = started(&mut client, draft);
    assert_eq!(outgoing.in_flight.seq(), 1);
    client.cancel(outgoing.in_flight);

    assert_eq!(
        client.unacked(),
        1,
        "the cancelled publish must release the delivery count it took, so \
         only the publish that filled the channel stays outstanding"
    );
    assert_eq!(
        publish_one(&mut client, "PlantFloor", "edge1"),
        1,
        "the cancelled publish must leave its number for the next message"
    );
}

#[test]
fn a_refused_publish_does_not_move_the_count() {
    let mut client = publisher();

    let draft = one_metric(&client, "PlantFloor", "edge1");
    let outgoing = started(&mut client, draft);
    let refused = client.settle(outgoing.in_flight, Err(refused()));
    assert!(
        matches!(refused, Err(SparkplugError::Publish(_))),
        "a client with no receiver must refuse the publish, got: {refused:?}"
    );

    assert_eq!(
        client.unacked(),
        0,
        "a message the client refused must hold no later flush open"
    );
    assert_eq!(
        publish_one(&mut client, "PlantFloor", "edge1"),
        1,
        "a message the client refused must leave its number for the next one"
    );
}

#[test]
fn a_refused_birth_leaves_the_count_where_it_was() {
    let mut client = edge_node(edge_node_named("PlantFloor", "edge1"));
    assert_eq!(publish_one(&mut client, "PlantFloor", "edge1"), 1);
    let draft = client
        .publish_birth(DeviceId::new("pump_3").unwrap())
        .unwrap();

    let nbirth = client.start_birth(&draft).unwrap();
    assert!(
        client.start_birth(&draft).is_none(),
        "the first birth holds the lock"
    );
    let waiting = one_metric(&client, "PlantFloor", "edge1");
    let waiting = client
        .start(waiting)
        .expect_err("the birth holds the lock");
    let refused_nbirth = client.continue_birth(&draft, nbirth.in_flight, Err(refused()));
    assert!(matches!(refused_nbirth, Err(SparkplugError::Publish(_))));

    let nbirth = client.start_birth(&draft).unwrap();
    let dbirth = client
        .continue_birth(&draft, nbirth.in_flight, Ok(()))
        .unwrap();
    assert!(matches!(
        client.settle(dbirth.in_flight, Err(refused())),
        Err(SparkplugError::Publish(_))
    ));

    assert_eq!(
        seq_of(&sent(&mut client, waiting)),
        2,
        "a DBIRTH the client refuses leaves the count where the NBIRTH found it"
    );
}

// ---------------------------------------------------------------------------
// Connecting, events and flushing
// ---------------------------------------------------------------------------

#[test]
fn a_client_on_a_bad_namespace_does_not_connect() {
    let bad = MqttConfig {
        version: "spB/v1.0".to_owned(),
        ..config()
    };
    let pair = edge_node_named("G", "n");
    for refused in [
        SparkplugClient::connect(&bad),
        SparkplugClient::connect_with_timeout(&bad, Duration::from_secs(1)),
        SparkplugClient::connect_as_edge_node(&bad, pair, Duration::from_secs(1)),
    ] {
        assert!(matches!(
            refused,
            Err(SparkplugError::InvalidNamespace(v)) if v == "spB/v1.0"
        ));
    }
}

#[test]
fn a_connect_waits_five_seconds_unless_told_otherwise() {
    let connecting = SparkplugClient::connect(&config())
        .unwrap_or_else(|e| panic!("the namespace is usable: {e:?}"));
    assert_eq!(connecting.timeout, Duration::from_secs(5));
    assert_eq!(connecting.client.role(), Role::Publisher);
    assert_eq!(connecting.client.health(), Health::Disconnected);

    let connecting = SparkplugClient::connect_with_timeout(&config(), Duration::from_secs(9))
        .unwrap_or_else(|e| panic!("the namespace is usable: {e:?}"));
    assert_eq!(connecting.timeout, Duration::from_secs(9));
    assert_eq!(connecting.client.role(), Role::Publisher);
}

#[test]
fn a_client_follows_its_event_loop() {
    let mut client = publisher();
    assert!(client.can_count(LoopEvent::ConnAck));
    assert!(client.on_event(LoopEvent::ConnAck).ready);
    assert_eq!(client.health(), Health::Connected);

    let _ = publish_one(&mut client, "G", "n");
    let _ = publish_one(&mut client, "G", "n");
    let _ = client.on_event(LoopEvent::PubAck);
    assert_eq!(client.unacked(), 1);

    let window = client.open_flush();
    assert!(!client.is_drained());
    assert!(client.can_count(LoopEvent::PollError));
    let step = client.on_event(LoopEvent::PollError);
    assert_eq!(step.back_off_secs, 1);
    assert_eq!(client.health(), Health::Disconnected);
    assert!(client.is_drained());
    assert!(matches!(
        client.flush(window, true, Duration::from_secs(1)),
        Err(SparkplugError::PublishLost { count: 1 })
    ));
    flush(&mut client).expect("the loss was reported");
    assert_eq!(
        publish_one(&mut client, "G", "n"),
        3,
        "a disconnect moves no seq count"
    );
}

#[test]
fn a_silent_broker_times_the_flush_out() {
    let mut client = publisher();
    let _ = publish_one(&mut client, "G", "n");
    assert!(matches!(
        flush(&mut client),
        Err(SparkplugError::FlushTimeout { unacked: 1, .. })
    ));
}

#[test]
fn a_host_reads_no_gap_whatever_is_refused_or_cancelled() {
    let mut client = publisher();
    let mut read = Vec::new();
    for turn in 0..600u32 {
        // Another edge node is under way all along.
        let other = one_metric(&client, "PlantFloor", "edge2");
        let other = started(&mut client, other);

        let draft = one_metric(&client, "PlantFloor", "edge1");
        let outgoing = started(&mut client, draft);
        match turn % 3 {
            0 => {
                client
                    .settle(outgoing.in_flight, Ok(()))
                    .expect("the publish must be accepted");
                read.push(seq_of(&outgoing.message));
            }
            1 => {
                assert!(client.settle(outgoing.in_flight, Err(refused())).is_err());
            }
            _ => client.cancel(outgoing.in_flight),
        }
        client.cancel(other.in_flight);
    }

    assert_eq!(read.len(), 200);
    for (i, seq) in read.iter().enumerate() {
        assert_eq!(*seq, (i as u64 + 1) % 256);
    }
    assert_eq!(client.unacked(), 200);
}

#[test]
fn a_birth_that_stops_half_way_puts_the_count_back() {
    let mut client = edge_node(edge_node_named("PlantFloor", "edge1"));
    let draft = client
        .publish_birth_at(DeviceId::new("pump_3").unwrap(), Timestamp(1))
        .unwrap();
    let mut read = Vec::new();

    read.push(publish_one(&mut client, "PlantFloor", "edge1"));
    // The NBIRTH goes out and its DBIRTH does not.
    let nbirth = client.start_birth(&draft).unwrap();
    read.push(seq_of(&nbirth.message));
    let dbirth = client
        .continue_birth(&draft, nbirth.in_flight, Ok(()))
        .unwrap();
    client.cancel(dbirth.in_flight);
    read.push(publish_one(&mut client, "PlantFloor", "edge1"));
    // Both go out.
    for birth in births(&mut client, "pump_3") {
        read.push(seq_of(&birth));
    }
    read.push(publish_one(&mut client, "PlantFloor", "edge1"));

    assert_eq!(read, vec![1, 0, 2, 0, 1, 2]);
}
