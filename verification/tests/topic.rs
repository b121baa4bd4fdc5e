//! Topics, in both directions.

use sparkplug_mqtt::{
    DeviceId, EdgeNodeId, GroupId, HostId, MessageType, Namespace, Shape, SparkplugError,
    SparkplugTopic,
};

fn ns() -> Namespace {
    Namespace::sparkplug_b()
}

fn group() -> GroupId<'static> {
    GroupId::new("G").expect("G is a usable group id")
}

fn node() -> EdgeNodeId<'static> {
    EdgeNodeId::new("n").expect("n is a usable edge node id")
}

fn device() -> DeviceId<'static> {
    DeviceId::new("d").expect("d is a usable device id")
}

/// Every message type, built through its own constructor.
fn one_of_each() -> Vec<(MessageType, SparkplugTopic)> {
    let ns = ns();
    vec![
        (MessageType::NBIRTH, ns.nbirth(group(), node())),
        (MessageType::NDATA, ns.ndata(group(), node())),
        (MessageType::NDEATH, ns.ndeath(group(), node())),
        (MessageType::NCMD, ns.ncmd(group(), node())),
        (MessageType::DBIRTH, ns.dbirth(group(), node(), device())),
        (MessageType::DDATA, ns.ddata(group(), node(), device())),
        (MessageType::DDEATH, ns.ddeath(group(), node(), device())),
        (MessageType::DCMD, ns.dcmd(group(), node(), device())),
        (
            MessageType::STATE,
            ns.state(HostId::new("host").expect("host is a usable host id")),
        ),
    ]
}

#[test]
fn every_message_type_survives_a_round_trip() {
    for (message_type, topic) in one_of_each() {
        let rendered = topic.to_string();
        let reparsed = ns().parse(&rendered).unwrap_or_else(|e| {
            panic!("{message_type:?} rendered as {rendered}, which failed to parse: {e:?}")
        });
        assert_eq!(
            reparsed, topic,
            "{message_type:?} did not survive a round trip"
        );
        assert_eq!(reparsed.to_string(), rendered);
    }
}

#[test]
fn each_constructor_names_its_own_message_type() {
    for (message_type, topic) in one_of_each() {
        assert_eq!(topic.message_type(), message_type);
        assert_eq!(topic.clone(), topic);
    }
}

#[test]
fn no_two_topics_render_alike() {
    let topics = one_of_each();
    for (i, (_, a)) in topics.iter().enumerate() {
        for (_, b) in &topics[i + 1..] {
            assert_ne!(a.to_string(), b.to_string());
        }
    }
}

#[test]
fn constructors_render_the_documented_segment_order() {
    let ns = ns();
    let plant = GroupId::new("PlantFloor").unwrap();
    let edge = EdgeNodeId::new("edge_node_1").unwrap();
    let pump = DeviceId::new("pump_3").unwrap();

    assert_eq!(
        ns.ddata(plant, edge, pump).to_string(),
        "spBv1.0/PlantFloor/DDATA/edge_node_1/pump_3"
    );
    assert_eq!(
        ns.nbirth(plant, edge).to_string(),
        "spBv1.0/PlantFloor/NBIRTH/edge_node_1"
    );
    assert_eq!(
        ns.state(HostId::new("scada_1").unwrap()).to_string(),
        "spBv1.0/STATE/scada_1"
    );
}

#[test]
fn a_data_topic_keeps_the_edge_node_and_device_apart() {
    let topic = ns().ddata(
        GroupId::new("Stax").unwrap(),
        EdgeNodeId::new("edge-node-A").unwrap(),
        DeviceId::new("device-1").unwrap(),
    );
    assert_eq!(topic.to_string(), "spBv1.0/Stax/DDATA/edge-node-A/device-1");
    assert_eq!(
        topic.node_id(),
        Some(EdgeNodeId::new("edge-node-A").unwrap())
    );
    assert_eq!(topic.device_id(), Some(DeviceId::new("device-1").unwrap()));
}

#[test]
fn a_checked_identifier_cannot_reach_the_wrong_segment() {
    let ns = Namespace::sparkplug_b();
    let topic = ns.ddata(
        GroupId::new("Stax").expect("Stax is a usable group id"),
        EdgeNodeId::new("edge-node-A").expect("usable edge node id"),
        DeviceId::new("device-1").expect("usable device id"),
    );
    assert_eq!(topic.to_string(), "spBv1.0/Stax/DDATA/edge-node-A/device-1");
}

#[test]
fn a_node_topic_carries_no_device() {
    let topic = ns().nbirth(group(), node());
    assert_eq!(topic.shape(), Shape::Node);
    assert_eq!(topic.group_id(), Some(group()));
    assert_eq!(topic.node_id(), Some(node()));
    assert_eq!(topic.device_id(), None);
    assert_eq!(topic.host_id(), None);
}

#[test]
fn a_device_topic_carries_every_identity_but_the_host() {
    let topic = ns().ddata(group(), node(), device());
    assert_eq!(topic.shape(), Shape::Device);
    assert_eq!(topic.group_id(), Some(group()));
    assert_eq!(topic.node_id(), Some(node()));
    assert_eq!(topic.device_id(), Some(device()));
    assert_eq!(topic.host_id(), None);
}

#[test]
fn a_host_topic_carries_only_the_host() {
    let topic = ns().state(HostId::new("scada_1").unwrap());
    assert_eq!(topic.shape(), Shape::Host);
    assert_eq!(topic.host_id(), Some(HostId::new("scada_1").unwrap()));
    assert_eq!(topic.group_id(), None);
    assert_eq!(topic.node_id(), None);
    assert_eq!(topic.device_id(), None);
}

#[test]
fn a_topic_reports_the_namespace_it_belongs_to() {
    let ns = Namespace::new("spBv9.9").unwrap();
    let topic = ns.ndata(group(), node());
    assert_eq!(topic.namespace(), "spBv9.9");
    assert_eq!(topic.to_string(), "spBv9.9/G/NDATA/n");
}

#[test]
fn parse_reads_the_documented_topics() {
    let t = ns()
        .parse("spBv1.0/PlantFloor/DDATA/edge_node_1/pump_3")
        .unwrap();
    assert_eq!(t.message_type(), MessageType::DDATA);
    assert_eq!(t.device_id().map(|d| d.as_str()), Some("pump_3"));

    let t = ns().parse("spBv1.0/STATE/scada_1").unwrap();
    assert_eq!(t.shape(), Shape::Host);
    assert_eq!(t.host_id().map(|h| h.as_str()), Some("scada_1"));
    assert_eq!(t.group_id(), None);

    assert!(ns()
        .parse("spBv1.0/PlantFloor/NBIRTH/edge_node_1/pump_3")
        .is_err());
}

#[test]
fn parse_rejects_another_namespace() {
    let err = ns()
        .parse("v2.0/G/NBIRTH/n")
        .expect_err("a foreign namespace is not ours to read");
    assert!(matches!(err, SparkplugError::InvalidTopic(_)));
}

#[test]
fn parse_rejects_too_few_segments() {
    for topic in ["spBv1.0", "spBv1.0/G"] {
        let err = ns().parse(topic).unwrap_err();
        assert!(
            matches!(err, SparkplugError::InvalidTopic(_)),
            "{topic} addresses nothing"
        );
    }
}

#[test]
fn parse_rejects_an_unknown_message_type() {
    let err = ns().parse("spBv1.0/G/XDATA/n").unwrap_err();
    assert!(matches!(err, SparkplugError::UnknownMessageType(_)));
}

#[test]
fn parse_rejects_a_device_segment_on_a_node_message() {
    let err = ns()
        .parse("spBv1.0/G/NBIRTH/n/d")
        .expect_err("an NBIRTH is node-shaped");
    assert!(matches!(
        err,
        SparkplugError::WrongTopicShape {
            message_type: MessageType::NBIRTH,
            ..
        }
    ));
}

#[test]
fn parse_rejects_a_device_message_with_no_device() {
    let err = ns()
        .parse("spBv1.0/G/DDATA/n")
        .expect_err("a DDATA must name its device");
    assert!(matches!(
        err,
        SparkplugError::WrongTopicShape {
            message_type: MessageType::DDATA,
            ..
        }
    ));
}

#[test]
fn parse_rejects_a_state_topic_of_the_wrong_length() {
    for topic in ["spBv1.0/STATE", "spBv1.0/STATE/host/extra"] {
        let err = ns().parse(topic).unwrap_err();
        assert!(
            matches!(
                err,
                SparkplugError::WrongTopicShape {
                    message_type: MessageType::STATE,
                    ..
                }
            ),
            "{topic} is not host-shaped"
        );
    }
}

#[test]
fn parse_rejects_a_state_message_addressed_like_a_node() {
    let err = ns().parse("spBv1.0/G/STATE/n").unwrap_err();
    assert!(matches!(
        err,
        SparkplugError::WrongTopicShape {
            message_type: MessageType::STATE,
            ..
        }
    ));
}

#[test]
fn parse_rejects_an_empty_segment() {
    let err = ns().parse("spBv1.0//NBIRTH/n").unwrap_err();
    assert!(matches!(err, SparkplugError::InvalidTopic(_)));
}

#[test]
fn parse_hands_back_what_it_could_not_read() {
    let err = ns().parse("other/G/NBIRTH/n").unwrap_err();
    assert_eq!(err.message(), "invalid topic format: other/G/NBIRTH/n");

    let err = ns().parse("spBv1.0/G/XDATA/n").unwrap_err();
    assert_eq!(err.message(), "unknown message type: XDATA");

    let err = ns().parse("spBv1.0/G/NBIRTH/n/d").unwrap_err();
    assert!(
        matches!(
            &err,
            SparkplugError::WrongTopicShape { topic, .. } if topic == "spBv1.0/G/NBIRTH/n/d"
        ),
        "got {err:?}"
    );
}

#[test]
fn parse_checks_the_group_before_the_edge_node_before_the_device() {
    let cases = [
        ("spBv1.0//DDATA//", "group id"),
        ("spBv1.0/G/DDATA//", "edge node id"),
        ("spBv1.0/G/DDATA/n/", "device id"),
        ("spBv1.0/G+/NDATA/n#", "group id"),
        ("spBv1.0/G/NDATA/n#", "edge node id"),
        ("spBv1.0/STATE/", "host id"),
    ];
    for (topic, label) in cases {
        let err = ns().parse(topic).unwrap_err();
        assert!(
            matches!(&err, SparkplugError::InvalidTopic(reason) if reason.starts_with(label)),
            "{topic} must be refused for its {label}, got {err:?}"
        );
    }
}

#[test]
fn a_group_named_state_reads_back_as_a_misaddressed_state() {
    let topic = ns().ndata(GroupId::new("STATE").unwrap(), node());
    assert_eq!(topic.to_string(), "spBv1.0/STATE/NDATA/n");
    let err = ns().parse(&topic.to_string()).unwrap_err();
    assert!(matches!(
        err,
        SparkplugError::WrongTopicShape {
            message_type: MessageType::STATE,
            ..
        }
    ));
}

#[test]
fn the_standard_namespace_is_spbv1() {
    assert_eq!(Namespace::sparkplug_b().as_str(), "spBv1.0");
    assert_eq!(Namespace::default(), Namespace::sparkplug_b());
    assert_eq!(Namespace::default().clone(), Namespace::sparkplug_b());
}

#[test]
fn namespace_rejects_a_string_no_broker_would_accept() {
    for bad in ["", "a/b", "a+b", "a#b"] {
        let err = Namespace::new(bad).unwrap_err();
        assert!(
            matches!(err, SparkplugError::InvalidNamespace(_)),
            "namespace {bad:?} must be rejected"
        );
    }
}

#[test]
fn a_bad_namespace_fails_the_connect_rather_than_every_publish() {
    let err = Namespace::new("spB/v1.0").expect_err("a namespace with a slash addresses nothing");
    assert!(matches!(err, SparkplugError::InvalidNamespace(_)));
}

#[test]
fn a_namespace_does_not_parse_another_namespaces_topics() {
    let ours = Namespace::new("spBv9.9").unwrap();
    assert!(ours.parse("spBv1.0/G/NBIRTH/n").is_err());
    assert!(ours.parse("spBv9.9/G/NBIRTH/n").is_ok());
}
