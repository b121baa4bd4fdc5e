//! Builders for the payloads that the publish paths send.
//!
//! Every builder is a pure function of its arguments: none reads the clock,
//! so a caller can state the instant it expects.
//!
//! A message on the wire carries the `seq` its edge node counts, which only
//! a client can supply. The builders whose names end in `_with_seq` take it.
//! The others stand outside any count, and carry the number of a first
//! message: 1 for data, 0 for a birth.

use crate::payload::{self, Metric, MetricView, Payload, PayloadView};
use crate::sparkplug::datatype;
use crate::sparkplug::types::{self, MetricValue, Timestamp};
use vstd::prelude::*;

verus! {

/// A metric with a name, a value and an instant, and nothing else.
pub open spec fn built_metric(name: Seq<char>, value: MetricValue, at: u64) -> MetricView {
    MetricView {
        name: Some(name),
        timestamp: Some(at),
        datatype: Some(datatype::code_of(types::proto_datatype(value))),
        value: Some(types::proto_value(value)),
        ..payload::no_metric()
    }
}

/// A payload with metrics, an instant and a `seq`, and nothing else.
pub open spec fn built_payload(metrics: Seq<MetricView>, at: u64, seq: u8) -> PayloadView {
    PayloadView {
        timestamp: Some(at),
        metrics,
        seq: Some(seq as u64),
        ..payload::no_payload()
    }
}

/// The one metric of a birth: a rebirth control that is off.
pub open spec fn birth_payload(control: Seq<char>, at: u64, seq: u8) -> PayloadView {
    built_payload(seq![built_metric(control, MetricValue::Float(0), at)], at, seq)
}

/// Create a Sparkplug B metric from a name, a typed value and an instant.
#[must_use]
pub fn create_metric(name: &str, value: MetricValue, timestamp: Timestamp) -> (metric: Metric)
    ensures
        metric@ == built_metric(name@, value, timestamp.0),
        metric.timestamp == Some(timestamp.0),
        metric.name matches Some(held) && held@ == name@,
        metric.alias is None,
        value matches MetricValue::Float(v) ==> metric.value == Some(
            payload::metric::Value::DoubleValue(payload::metric::Double(v)),
        ),
        value matches MetricValue::Int(v) ==> metric.value == Some(
            payload::metric::Value::LongValue(v),
        ),
        value matches MetricValue::Bool(v) ==> metric.value == Some(
            payload::metric::Value::BooleanValue(v),
        ),
{
    let (proto_value, datatype) = value.to_proto();
    let mut metric = Metric::default();
    metric.name = Some(name.to_owned());
    metric.value = Some(proto_value);
    metric.datatype = Some(datatype.code());
    metric.timestamp = Some(timestamp.0);
    metric
}

/// Build a Sparkplug B payload from a list of metrics, an instant and the
/// `seq` its edge node gives it.
#[must_use]
pub fn create_payload_with_seq(metrics: Vec<Metric>, timestamp: Timestamp, seq: u8) -> (payload:
    Payload)
    ensures
        payload@ == built_payload(payload::metric_views(metrics@), timestamp.0, seq),
        payload.timestamp == Some(timestamp.0),
        payload.metrics == metrics,
        payload.seq == Some(seq as u64),
        payload.uuid is None,
        payload.body is None,
{
    Payload {
        timestamp: Some(timestamp.0),
        metrics,
        seq: Some(seq as u64),
        uuid: None,
        body: None,
    }
}

/// Build a Sparkplug B payload from a list of metrics and an instant,
/// outside any count.
#[must_use]
pub fn create_payload(metrics: Vec<Metric>, timestamp: Timestamp) -> (payload: Payload)
    ensures
        payload@ == built_payload(payload::metric_views(metrics@), timestamp.0, 1),
{
    create_payload_with_seq(metrics, timestamp, 1)
}

/// Build the payload of a birth around its one metric.
fn create_birth(control: &str, timestamp: Timestamp, seq: u8) -> (payload: Payload)
    ensures
        payload@ == birth_payload(control@, timestamp.0, seq),
{
    let mut metrics: Vec<Metric> = Vec::new();
    metrics.push(create_metric(control, MetricValue::Float(0), timestamp));
    let payload = create_payload_with_seq(metrics, timestamp, seq);
    assert(payload@.metrics =~= birth_payload(control@, timestamp.0, seq).metrics);
    payload
}

/// Create a node birth certificate payload with the `seq` its edge node
/// gives it.
///
/// The payload and its one metric carry the same instant.
#[must_use]
pub fn create_birth_certificate_with_seq(timestamp: Timestamp, seq: u8) -> (payload: Payload)
    ensures
        payload@ == birth_payload("Node Control/Rebirth"@, timestamp.0, seq),
{
    create_birth("Node Control/Rebirth", timestamp, seq)
}

/// Create a node birth certificate payload, outside any count.
///
/// The payload and its one metric carry the same instant.
#[must_use]
pub fn create_birth_certificate(timestamp: Timestamp) -> (payload: Payload)
    ensures
        payload@ == birth_payload("Node Control/Rebirth"@, timestamp.0, 0),
{
    create_birth_certificate_with_seq(timestamp, 0)
}

/// Create a device birth certificate payload with the `seq` its edge node
/// gives it.
///
/// The payload and its one metric carry the same instant.
#[must_use]
pub fn create_device_birth_certificate_with_seq(timestamp: Timestamp, seq: u8) -> (payload: Payload)
    ensures
        payload@ == birth_payload("Device Control/Rebirth"@, timestamp.0, seq),
{
    create_birth("Device Control/Rebirth", timestamp, seq)
}

/// Create a device birth certificate payload, outside any count.
///
/// The payload and its one metric carry the same instant.
#[must_use]
pub fn create_device_birth_certificate(timestamp: Timestamp) -> (payload: Payload)
    ensures
        payload@ == birth_payload("Device Control/Rebirth"@, timestamp.0, 0),
{
    create_device_birth_certificate_with_seq(timestamp, 0)
}

// ---------------------------------------------------------------------------
// What holds of every payload built here
// ---------------------------------------------------------------------------

/// Every metric built here is valid: it holds no nested message.
pub proof fn law_a_built_metric_is_valid(name: Seq<char>, value: MetricValue, at: u64)
    ensures
        payload::round_trip::metric_is_valid(built_metric(name, value, at)),
{
}

/// A birth reads back as it was built, and its payload and its metric carry
/// one instant.
pub proof fn law_a_birth_reads_back(control: Seq<char>, at: u64, seq: u8)
    requires
        payload::codec::payload_bytes(birth_payload(control, at, seq)).len() <= u64::MAX,
    ensures
        payload::codec::decoded(payload::codec::payload_bytes(birth_payload(control, at, seq)))
            == Some(birth_payload(control, at, seq)),
        birth_payload(control, at, seq).timestamp == Some(at),
        birth_payload(control, at, seq).metrics[0].timestamp == Some(at),
        birth_payload(control, at, seq).seq == Some(seq as u64),
{
    law_a_built_metric_is_valid(control, MetricValue::Float(0), at);
    payload::round_trip::law_decode_gives_back_encode(birth_payload(control, at, seq));
}

/// A metric that is built carries the name, the instant and the value it was
/// built from, the datatype of that value, and nothing else.
pub proof fn law_a_built_metric_carries_what_it_was_built_from(
    name: Seq<char>,
    value: MetricValue,
    at: u64,
)
    ensures
        ({
            let m = built_metric(name, value, at);
            &&& m.name == Some(name)
            &&& m.timestamp == Some(at)
            &&& match value {
                MetricValue::Float(bits) => {
                    &&& m.value == Some(payload::metric::ValueView::DoubleValue(bits))
                    &&& m.datatype == Some(10u32)
                },
                MetricValue::Bool(flag) => {
                    &&& m.value == Some(payload::metric::ValueView::BooleanValue(flag))
                    &&& m.datatype == Some(11u32)
                },
                MetricValue::String(text) => {
                    &&& m.value == Some(payload::metric::ValueView::StringValue(text@))
                    &&& m.datatype == Some(12u32)
                },
                MetricValue::Int(number) => {
                    &&& m.value == Some(payload::metric::ValueView::LongValue(number))
                    &&& m.datatype == Some(8u32)
                },
            }
            &&& m.alias is None
            &&& m.is_historical is None
            &&& m.is_transient is None
            &&& m.is_null is None
            &&& m.metadata is None
            &&& m.properties is None
        }),
{
}

/// A payload that is built carries the metrics, the instant and the `seq` it
/// was built from, and nothing else.
pub proof fn law_a_built_payload_carries_what_it_was_built_from(
    metrics: Seq<MetricView>,
    at: u64,
    seq: u8,
)
    ensures
        built_payload(metrics, at, seq).metrics == metrics,
        built_payload(metrics, at, seq).timestamp == Some(at),
        built_payload(metrics, at, seq).seq == Some(seq as u64),
        built_payload(metrics, at, seq).uuid is None,
        built_payload(metrics, at, seq).body is None,
{
}

/// A birth carries one metric, its rebirth control: a double that is zero,
/// at the instant of the birth. The payload carries that instant too.
pub proof fn law_a_birth_carries_one_control_that_is_off(control: Seq<char>, at: u64, seq: u8)
    ensures
        ({
            let p = birth_payload(control, at, seq);
            &&& p.timestamp == Some(at)
            &&& p.seq == Some(seq as u64)
            &&& p.uuid is None
            &&& p.body is None
            &&& p.metrics.len() == 1
            &&& p.metrics[0].name == Some(control)
            &&& p.metrics[0].timestamp == Some(at)
            &&& p.metrics[0].datatype == Some(10u32)
            &&& p.metrics[0].value == Some(payload::metric::ValueView::DoubleValue(0))
            &&& p.metrics[0].alias is None
            &&& p.metrics[0].is_historical is None
            &&& p.metrics[0].is_transient is None
            &&& p.metrics[0].is_null is None
            &&& p.metrics[0].metadata is None
            &&& p.metrics[0].properties is None
        }),
{
}

} // verus!
