//! The publish path of one asset.

use sparkplug_mqtt::sparkplug::payload_helpers::{
    create_birth_certificate, create_device_birth_certificate,
};
use sparkplug_mqtt::sparkplug::publisher::{next_message, TimestampToMetrics};
use sparkplug_mqtt::{
    decode_payload, metric, Metric, Payload, SparkplugError, SparkplugPublisher, Timestamp,
};

fn rebirth(value: metric::Value) -> Vec<u8> {
    Payload {
        metrics: vec![Metric {
            name: Some("Node Control/Rebirth".to_owned()),
            value: Some(value),
            ..Default::default()
        }],
        ..Default::default()
    }
    .encode_to_vec()
}

#[test]
fn each_frame_becomes_one_message() {
    let publisher = SparkplugPublisher::new("spBv1.0").clone();
    let frames = vec![
        TimestampToMetrics::new(
            Timestamp(5),
            vec![
                Metric {
                    name: None,
                    alias: Some(3),
                    datatype: Some(10),
                    value: Some(metric::Value::DoubleValue(metric::Double(1.5f64.to_bits()))),
                    timestamp: Some(1),
                    ..Default::default()
                },
                Metric {
                    name: Some("b".to_owned()),
                    ..Default::default()
                },
            ],
        ),
        TimestampToMetrics::new(Timestamp(6), vec![]),
    ];
    assert_eq!(frames[0].timestamp(), Timestamp(5));
    assert_eq!(frames[0].metrics().len(), 2);

    let messages = publisher.publish_metrics("G", "asset", frames);
    assert_eq!(messages.len(), 2);
    for message in &messages {
        assert_eq!(message.topic, "spBv1.0/G/DDATA/asset/asset");
    }
    let first = decode_payload(&messages[0].payload).unwrap();
    assert_eq!(
        first,
        Payload {
            timestamp: Some(5),
            metrics: vec![
                Metric {
                    name: Some(String::new()),
                    datatype: Some(10),
                    value: Some(metric::Value::DoubleValue(metric::Double(1.5f64.to_bits()))),
                    timestamp: Some(5),
                    ..Default::default()
                },
                Metric {
                    name: Some("b".to_owned()),
                    timestamp: Some(5),
                    ..Default::default()
                },
            ],
            seq: Some(1),
            ..Default::default()
        }
    );
    assert_eq!(
        decode_payload(&messages[1].payload).unwrap().timestamp,
        Some(6)
    );
}

#[test]
fn no_frame_gives_no_message() {
    let publisher = SparkplugPublisher::new("spBv1.0");
    assert!(publisher.publish_metrics("G", "asset", vec![]).is_empty());
}

#[test]
fn the_node_birth_comes_before_the_device_birth() {
    let publisher = SparkplugPublisher::new("v2");
    let messages = publisher.publish_births_at("G", "asset", Timestamp(8), Timestamp(9));
    assert_eq!(messages.len(), 2);
    assert_eq!(messages[0].topic, "v2/G/NBIRTH/asset");
    assert_eq!(
        messages[0].payload,
        create_birth_certificate(Timestamp(8)).encode_to_vec()
    );
    assert_eq!(messages[1].topic, "v2/G/DBIRTH/asset/asset");
    assert_eq!(
        messages[1].payload,
        create_device_birth_certificate(Timestamp(9)).encode_to_vec()
    );

    let before = Timestamp::now().0;
    let now = publisher.publish_births("G", "asset");
    assert_eq!(now.len(), 2);
    assert_eq!(now[0].topic, "v2/G/NBIRTH/asset");
    assert_eq!(now[1].topic, "v2/G/DBIRTH/asset/asset");
    for message in &now {
        let at = decode_payload(&message.payload).unwrap().timestamp.unwrap();
        assert!(before <= at && at <= Timestamp::now().0);
    }
}

#[test]
fn messages_go_out_in_turn_until_one_is_refused() {
    let publisher = SparkplugPublisher::new("v2");
    let messages = publisher.publish_births_at("G", "asset", Timestamp(8), Timestamp(9));
    assert!(matches!(next_message(&messages, 0, Ok(())), Ok(Some(1))));
    assert!(matches!(next_message(&messages, 1, Ok(())), Ok(None)));

    let refused = || {
        let request = rumqttc::Request::Publish(rumqttc::Publish::new(
            "t",
            rumqttc::QoS::AtMostOnce,
            Vec::<u8>::new(),
        ));
        rumqttc::ClientError::Request(request)
    };
    for index in [0, 1] {
        assert!(matches!(
            next_message(&messages, index, Err(refused())),
            Err(SparkplugError::Publish(rumqttc::ClientError::Request(_)))
        ));
    }
}

#[test]
fn a_rebirth_request_names_the_asset_and_holds_one() {
    let publisher = SparkplugPublisher::new("spBv1.0");
    let request = rebirth(metric::Value::FloatValue(metric::Single(1.0f32.to_bits())));
    assert!(publisher.handle_command("spBv1.0/G/NCMD/asset", &request, "asset"));
    assert!(publisher.handle_command("spBv1.0/G/DCMD/asset/d", &request, "asset"));
    assert!(!publisher.handle_command("spBv1.0/G/NCMD/other", &request, "asset"));
    assert!(!publisher.handle_command("spBv1.0/G/NCMD", &request, "asset"));
    assert!(!publisher.handle_command("spBv1.0/G/NCMD/asset", &[0xff], "asset"));
}

#[test]
fn another_value_asks_for_no_rebirth() {
    let publisher = SparkplugPublisher::new("spBv1.0");
    for value in [
        metric::Value::FloatValue(metric::Single(0.0f32.to_bits())),
        metric::Value::FloatValue(metric::Single((-1.0f32).to_bits())),
        metric::Value::DoubleValue(metric::Double(1.0f64.to_bits())),
        metric::Value::BooleanValue(true),
    ] {
        assert!(!publisher.handle_command("spBv1.0/G/NCMD/a", &rebirth(value), "a"));
    }
    assert!(!publisher.handle_command("spBv1.0/G/NCMD/a", &[], "a"));
}
