//! The payloads that the publish paths send.

use sparkplug_mqtt::sparkplug::payload_helpers::{
    create_birth_certificate, create_birth_certificate_with_seq, create_device_birth_certificate,
    create_device_birth_certificate_with_seq, create_metric, create_payload,
    create_payload_with_seq,
};
use sparkplug_mqtt::{decode_payload, metric, DataType, MetricValue, Payload, Timestamp};

const AT: Timestamp = Timestamp(1_700_000_000_000);

#[test]
fn create_metric_float() {
    let m = create_metric("temp", MetricValue::Float(42.5f64.to_bits()), AT);
    assert_eq!(
        m.value,
        Some(metric::Value::DoubleValue(metric::Double(42.5f64.to_bits())))
    );
    assert_eq!(m.datatype, Some(DataType::Double.code()));
}

#[test]
fn create_metric_string() {
    let m = create_metric("mode", MetricValue::String("AUTO".to_string()), AT);
    assert_eq!(
        m.value,
        Some(metric::Value::StringValue("AUTO".to_string()))
    );
    assert_eq!(m.datatype, Some(DataType::String.code()));
}

#[test]
fn create_metric_bool() {
    let m = create_metric("active", MetricValue::Bool(true), AT);
    assert_eq!(m.value, Some(metric::Value::BooleanValue(true)));
    assert_eq!(m.datatype, Some(DataType::Boolean.code()));
}

#[test]
fn create_metric_int() {
    let m = create_metric("count", MetricValue::Int(99), AT);
    assert_eq!(m.value, Some(metric::Value::LongValue(99)));
    assert_eq!(m.datatype, Some(DataType::UInt64.code()));
}

#[test]
fn create_metric_stamps_the_instant_the_caller_states() {
    assert_eq!(
        create_metric("temp", MetricValue::Float(1.0f64.to_bits()), AT).timestamp,
        Some(1_700_000_000_000)
    );
}

#[test]
fn create_payload_uses_the_instant_the_caller_states() {
    assert_eq!(
        create_payload(vec![], AT).timestamp,
        Some(1_700_000_000_000)
    );
}

#[test]
fn a_payload_with_a_seq_carries_it() {
    for seq in [0, 1, 255] {
        assert_eq!(
            create_payload_with_seq(vec![], AT, seq),
            Payload {
                timestamp: Some(AT.0),
                seq: Some(u64::from(seq)),
                ..Default::default()
            }
        );
    }
    assert_eq!(create_payload(vec![], AT).seq, Some(1));
}

#[test]
fn a_birth_certificate_stamps_its_payload_and_its_metric_alike() {
    for payload in [
        create_birth_certificate(AT),
        create_device_birth_certificate(AT),
    ] {
        assert_eq!(payload.timestamp, Some(AT.0));
        assert_eq!(payload.metrics[0].timestamp, Some(AT.0));
    }
}

#[test]
fn create_birth_certificate_is_infallible() {
    let p = create_birth_certificate(AT);
    assert_eq!(p.seq, Some(0));
    assert_eq!(p.metrics.len(), 1);
}

#[test]
fn each_birth_names_its_own_control() {
    let node = create_birth_certificate_with_seq(AT, 0);
    assert_eq!(
        node.metrics[0].name.as_deref(),
        Some("Node Control/Rebirth")
    );
    assert_eq!(
        node.metrics[0].value,
        Some(metric::Value::DoubleValue(metric::Double(0.0f64.to_bits())))
    );

    let device = create_device_birth_certificate_with_seq(AT, 1);
    assert_eq!(
        device.metrics[0].name.as_deref(),
        Some("Device Control/Rebirth")
    );
    assert_eq!(device.seq, Some(1));
    let read = decode_payload(&device.encode_to_vec()).expect("should decode payload");
    assert_eq!(read, device);
}

#[test]
fn metric_value_float_roundtrip() {
    let metric = create_metric("temperature", MetricValue::Float(42.5f64.to_bits()), AT);
    let payload = create_payload(vec![metric], AT);
    let bytes = payload.encode_to_vec();
    let decoded = decode_payload(&bytes).expect("should decode payload");
    assert_eq!(decoded.metrics.len(), 1);
    let m = &decoded.metrics[0];
    assert_eq!(m.name.as_deref(), Some("temperature"));
    assert!(matches!(
        m.value,
        Some(metric::Value::DoubleValue(v)) if (f64::from_bits(v.0) - 42.5).abs() < f64::EPSILON
    ));
}

#[test]
fn metric_value_string_roundtrip() {
    let metric = create_metric("vessel_type", MetricValue::String("AUTO".into()), AT);
    let payload = create_payload(vec![metric], AT);
    let bytes = payload.encode_to_vec();
    let decoded = decode_payload(&bytes).expect("should decode payload");
    assert!(matches!(
        &decoded.metrics[0].value,
        Some(metric::Value::StringValue(s)) if s == "AUTO"
    ));
}

#[test]
fn metric_value_bool_roundtrip() {
    let metric = create_metric("active", MetricValue::Bool(true), AT);
    let payload = create_payload(vec![metric], AT);
    let bytes = payload.encode_to_vec();
    let decoded = decode_payload(&bytes).expect("should decode payload");
    assert!(matches!(
        decoded.metrics[0].value,
        Some(metric::Value::BooleanValue(true))
    ));
}

#[test]
fn metric_value_int_roundtrip() {
    let metric = create_metric("count", MetricValue::Int(99), AT);
    let payload = create_payload(vec![metric], AT);
    let bytes = payload.encode_to_vec();
    let decoded = decode_payload(&bytes).expect("should decode payload");
    assert!(matches!(
        decoded.metrics[0].value,
        Some(metric::Value::LongValue(99))
    ));
}
