//! Message types, roles and instants.

use sparkplug_mqtt::sparkplug::types::wire_options;
use sparkplug_mqtt::{metric, DataType, MessageType, MetricValue, QoS, Role, Shape, Timestamp};
use sparkplug_mqtt::SparkplugError;

const ALL: [MessageType; 9] = [
    MessageType::NBIRTH,
    MessageType::NDATA,
    MessageType::NDEATH,
    MessageType::DBIRTH,
    MessageType::DDATA,
    MessageType::DDEATH,
    MessageType::NCMD,
    MessageType::DCMD,
    MessageType::STATE,
];

#[test]
fn message_type_from_str() {
    let mt: MessageType = "DDATA".parse().expect("should parse DDATA");
    assert_eq!(mt, MessageType::DDATA);
}

#[test]
fn message_type_roundtrip() {
    for mt in &ALL {
        let parsed: MessageType = mt.as_str().parse().expect("roundtrip should succeed");
        assert_eq!(&parsed, mt);
    }
}

#[test]
fn an_unknown_name_is_handed_back() {
    for name in ["", "ddata", "DDATA ", "XDATA", "NBIRTHS"] {
        let error = name
            .parse::<MessageType>()
            .expect_err("the name is no message type");
        assert!(
            matches!(&error, SparkplugError::UnknownMessageType(unknown) if unknown == name),
            "{name:?} must come back, got {error:?}"
        );
    }
}

#[test]
fn node_messages_take_the_node_shape() {
    for mt in [
        MessageType::NBIRTH,
        MessageType::NDATA,
        MessageType::NDEATH,
        MessageType::NCMD,
    ] {
        assert_eq!(mt.shape(), Shape::Node, "{mt:?} is a node message");
    }
}

#[test]
fn device_messages_take_the_device_shape() {
    for mt in [
        MessageType::DBIRTH,
        MessageType::DDATA,
        MessageType::DDEATH,
        MessageType::DCMD,
    ] {
        assert_eq!(mt.shape(), Shape::Device, "{mt:?} is a device message");
    }
}

#[test]
fn state_takes_the_host_shape() {
    assert_eq!(MessageType::STATE.shape(), Shape::Host);
}

#[test]
fn only_ndeath_and_state_use_qos_one() {
    for mt in ALL {
        let expected = match mt {
            MessageType::NDEATH | MessageType::STATE => QoS::AtLeastOnce,
            _ => QoS::AtMostOnce,
        };
        assert_eq!(mt.spec_qos(), expected, "{mt:?} carries the wrong spec QoS");
    }
}

#[test]
fn a_publisher_client_keeps_qos_one_for_every_message_type() {
    for mt in ALL {
        let options = wire_options(Role::Publisher, mt);
        assert_eq!(
            options.qos,
            QoS::AtLeastOnce,
            "{mt:?} must stay at QoS 1 in the publisher role, so flush can \
             confirm it"
        );
        assert!(options.counted, "{mt:?} is acknowledged, so it is tracked");
    }
}

#[test]
fn an_edge_node_client_uses_the_qos_the_spec_fixes() {
    for mt in ALL {
        let options = wire_options(Role::EdgeNode, mt);
        assert_eq!(
            options.qos,
            mt.spec_qos(),
            "{mt:?} must take the spec QoS in the edge node role"
        );
    }
}

#[test]
fn only_an_acknowledged_message_is_tracked() {
    for role in [Role::Publisher, Role::EdgeNode] {
        for mt in ALL {
            let options = wire_options(role, mt);
            assert_eq!(
                options.counted,
                options.qos == QoS::AtLeastOnce,
                "{mt:?} in {role:?}: the tracker counts a message only when \
                 the broker acknowledges it"
            );
        }
    }
}

#[test]
fn the_retain_flag_follows_the_spec_in_both_roles() {
    for role in [Role::Publisher, Role::EdgeNode] {
        for mt in ALL {
            assert_eq!(
                wire_options(role, mt).retain,
                mt.spec_retain(),
                "{mt:?} in {role:?} carries the wrong retain flag"
            );
        }
    }
}

#[test]
fn an_edge_node_client_tracks_nothing_it_can_publish_today() {
    for mt in [
        MessageType::NBIRTH,
        MessageType::NDATA,
        MessageType::DBIRTH,
        MessageType::DDATA,
        MessageType::DDEATH,
        MessageType::NCMD,
        MessageType::DCMD,
    ] {
        assert!(
            !wire_options(Role::EdgeNode, mt).counted,
            "{mt:?} goes out at QoS 0 for an edge node, so flush cannot \
             confirm it"
        );
    }
}

#[test]
fn only_state_is_retained() {
    for mt in ALL {
        assert_eq!(
            mt.spec_retain(),
            mt == MessageType::STATE,
            "{mt:?} carries the wrong spec retain flag"
        );
    }
}

#[test]
fn timestamp_now_reads_a_clock_after_the_epoch() {
    assert!(Timestamp::now() > Timestamp(1_700_000_000_000));
}

#[test]
fn a_clock_reading_becomes_milliseconds() {
    assert_eq!(Timestamp::from_reading(Some(42)), Timestamp(42));
    assert_eq!(
        Timestamp::from_reading(None),
        Timestamp(0),
        "a clock before the epoch reads as zero"
    );
    assert_eq!(
        Timestamp::from_reading(Some(u128::from(u64::MAX) + 3)),
        Timestamp(2)
    );
}

#[test]
fn a_metric_value_names_its_datatype() {
    let cases = [
        (
            MetricValue::Float(1.5f64.to_bits()),
            metric::Value::DoubleValue(metric::Double(1.5f64.to_bits())),
            DataType::Double,
        ),
        (
            MetricValue::String("x".to_owned()),
            metric::Value::StringValue("x".to_owned()),
            DataType::String,
        ),
        (
            MetricValue::Bool(true),
            metric::Value::BooleanValue(true),
            DataType::Boolean,
        ),
        (
            MetricValue::Int(9),
            metric::Value::LongValue(9),
            DataType::UInt64,
        ),
    ];
    for (value, held, datatype) in cases {
        assert_eq!(value.clone(), value);
        assert_eq!(value.to_proto(), (held, datatype));
    }
}

#[test]
fn floating_point_values_are_equal_as_numbers() {
    let float = |value: f64| MetricValue::Float(value.to_bits());
    assert_eq!(float(0.0), float(-0.0));
    assert_eq!(float(1.5), float(1.5));
    assert_ne!(float(1.5), float(-1.5));
    assert_ne!(float(f64::NAN), float(f64::NAN));
    assert_eq!(float(f64::INFINITY), float(f64::INFINITY));
    assert_ne!(float(1.0), MetricValue::Int(1.0f64.to_bits()));

    let single = |value: f32| metric::Value::FloatValue(metric::Single(value.to_bits()));
    assert_eq!(single(0.0), single(-0.0));
    assert_ne!(single(f32::NAN), single(f32::NAN));
    assert_ne!(single(f32::INFINITY), single(f32::NEG_INFINITY));
    let double = |value: f64| metric::Value::DoubleValue(metric::Double(value.to_bits()));
    assert_eq!(double(0.0), double(-0.0));
    assert_ne!(double(f64::NAN), double(f64::NAN));
}
