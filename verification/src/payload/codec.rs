//! How messages are laid out in bytes, in both directions.
//!
//! Each field of a message is written in the order of its number, and a
//! field that holds nothing is not written. Reading takes up fields in any
//! order, and passes over those that the message does not have. A field that
//! comes twice keeps the later value, except that an item is added to its
//! list and a nested message takes up what comes later.

pub mod data_set;
pub mod meta_data;
pub mod metrics;
pub mod parameter;
pub mod property;

use crate::payload::fields::{self, FieldValue, FieldValueView, FieldView};
use crate::payload::metric;
use crate::payload::nested;
use crate::payload::{self, Metric, MetricView, Payload, PayloadView};
use crate::schema::{self, MessageKind};
use crate::wire;
use vstd::prelude::*;

verus! {

/// The 32 low bits of a number.
pub open spec fn low_half(value: u64) -> u32 {
    (value % 0x1_0000_0000) as u32
}

/// Take the 32 low bits of a number.
pub(crate) fn low_half_of(value: u64) -> (low: u32)
    ensures
        low == low_half(value),
{
    (value % 0x1_0000_0000) as u32
}

/// A payload, with one more field taken up.
pub open spec fn with_payload(p: PayloadView, f: FieldView, limit: nat) -> PayloadView {
    match (f.number, f.value) {
        (1, FieldValueView::Number(v)) => PayloadView { timestamp: Some(v), ..p },
        (2, FieldValueView::Message(body)) => if limit > 0 {
            PayloadView {
                metrics: p.metrics.push(
                    metrics::metric_from(payload::no_metric(), body, (limit - 1) as nat),
                ),
                ..p
            }
        } else {
            p
        },
        (3, FieldValueView::Number(v)) => PayloadView { seq: Some(v), ..p },
        (4, FieldValueView::Text(v)) => PayloadView { uuid: Some(v), ..p },
        (5, FieldValueView::Bytes(v)) => PayloadView { body: Some(v), ..p },
        _ => p,
    }
}

/// Takes up one field of a payload.
pub open spec fn payload_step(limit: nat) -> spec_fn(PayloadView, FieldView) -> PayloadView {
    |p: PayloadView, f: FieldView| with_payload(p, f, limit)
}

/// A payload, with the fields of `bytes` taken up.
pub open spec fn payload_from(p: PayloadView, bytes: Seq<u8>, limit: nat) -> PayloadView {
    fields::folded(p, fields::fields_in(MessageKind::Payload, bytes), payload_step(limit))
}

/// The fields of a payload, in the order of their numbers.
pub open spec fn payload_fields(p: PayloadView) -> Seq<FieldView> {
    fields::number_in(1, p.timestamp) + fields::messages_in(2, metrics::metric_bodies(p.metrics))
        + fields::number_in(3, p.seq) + fields::text_in(4, p.uuid) + fields::bytes_in(5, p.body)
}

/// The bytes of a payload.
pub open spec fn payload_bytes(p: PayloadView) -> Seq<u8> {
    fields::fields_bytes(payload_fields(p))
}

/// The payload that bytes spell, if the schema accepts them.
pub open spec fn decoded(bytes: Seq<u8>) -> Option<PayloadView> {
    if schema::accepts(MessageKind::Payload, bytes, wire::RECURSION_LIMIT as nat) {
        Some(payload_from(payload::no_payload(), bytes, wire::RECURSION_LIMIT as nat))
    } else {
        None
    }
}

/// Why bytes are no payload that the schema accepts, and where.
pub open spec fn fault(bytes: Seq<u8>) -> wire::Fault {
    schema::fault_in(MessageKind::Payload, bytes, wire::RECURSION_LIMIT as nat)
}

/// Take up the fields of `bytes`.
fn merge_payload(held: Payload, bytes: &[u8], limit: u32) -> (p: Payload)
    ensures
        p@ == payload_from(held@, bytes@, limit as nat),
{
    let read = fields::read_fields(MessageKind::Payload, bytes);
    let ghost fs = fields::field_views(read@);
    let ghost start = held@;
    let mut p = held;
    let mut i: usize = 0;
    while i < read.len()
        invariant
            i <= read.len(),
            fs == fields::field_views(read@),
            p@ == fields::folded(start, fs.take(i as int), payload_step(limit as nat)),
        decreases read.len() - i,
    {
        let ghost before = p@;
        match (read[i].number, &read[i].value) {
            (1, FieldValue::Number(v)) => p.timestamp = Some(*v),
            (2, FieldValue::Message(body)) => if limit > 0 {
                let ghost held = p.metrics@;
                p.metrics.push(
                    metrics::merge_metric(Metric::default(), body.as_slice(), limit - 1),
                );
                assert(payload::metric_views(p.metrics@) =~= payload::metric_views(held).push(
                    p.metrics@.last()@,
                ));
            },
            (3, FieldValue::Number(v)) => p.seq = Some(*v),
            (4, FieldValue::Text(v)) => p.uuid = Some(v.clone()),
            (5, FieldValue::Bytes(v)) => p.body = Some(metric::copy_bytes(v)),
            _ => {},
        }
        assert(p@ == with_payload(before, fs[i as int], limit as nat));
        proof {
            fields::lemma_folded_next(start, fs, i as int, payload_step(limit as nat));
        }
        i += 1;
    }
    assert(fs.take(i as int) =~= fs);
    p
}

/// Read a payload.
pub(crate) fn decode(bytes: &[u8]) -> (read: Result<Payload, prost::DecodeError>)
    ensures
        match read {
            Ok(read) => decoded(bytes@) == Some(read@),
            Err(error) => decoded(bytes@) is None && wire::error_fault(error) == fault(bytes@),
        },
{
    match schema::check_message(MessageKind::Payload, bytes, wire::RECURSION_LIMIT) {
        Ok(()) => Ok(merge_payload(Payload::default(), bytes, wire::RECURSION_LIMIT)),
        Err(error) => Err(error),
    }
}

/// Write a payload.
pub(crate) fn encode(p: &Payload) -> (bytes: Vec<u8>)
    ensures
        bytes@ == payload_bytes(p@),
{
    let mut writer = fields::Writer::start();
    writer.number(1, p.timestamp);
    assert(writer.written() =~= fields::number_in(1, p@.timestamp));
    metrics::write_metrics(2, &p.metrics, &mut writer);
    assert(nested::views(p.metrics@) =~= p@.metrics);
    writer.number(3, p.seq);
    writer.held_text(4, &p.uuid);
    match &p.body {
        Some(body) => writer.raw(5, body),
        None => {
            assert(writer.written() + Seq::empty() =~= writer.written());
        },
    }
    writer.finish()
}

/// Whether a payload nests no deeper than `limit` levels.
pub open spec fn payload_fits(p: PayloadView, limit: nat) -> bool {
    &&& p.metrics.len() > 0 ==> limit > 0
    &&& forall|i: int|
        0 <= i < p.metrics.len() ==> metrics::metric_fits(
            #[trigger] p.metrics[i],
            (limit - 1) as nat,
        )
}

/// A payload reads back as itself at any level it fits, from bytes that hold its
/// fields and nothing else.
pub proof fn lemma_payload(p: PayloadView, limit: nat)
    requires
        payload_fits(p, limit),
        payload_bytes(p).len() <= u64::MAX,
    ensures
        payload_from(payload::no_payload(), payload_bytes(p), limit) == p,
        fields::passes(MessageKind::Payload, payload_bytes(p), limit),
        fields::holds_fields_only(MessageKind::Payload, payload_bytes(p), limit),
        schema::accepts(MessageKind::Payload, payload_bytes(p), limit),
{
    reveal(schema::field_type);
    let kind = MessageKind::Payload;
    let list = payload_fields(p);
    let step = payload_step(limit);
    let v0 = payload::no_payload();
    let v1 = PayloadView { timestamp: p.timestamp, ..v0 };
    let p1 = fields::number_in(1, p.timestamp);
    let p2 = fields::messages_in(2, metrics::metric_bodies(p.metrics));
    let p3 = fields::number_in(3, p.seq);
    let p4 = fields::text_in(4, p.uuid);
    let p5 = fields::bytes_in(5, p.body);
    fields::lemma_part_behind(kind, limit, v0, Seq::empty(), p1, step, v0, v1);
    assert(Seq::empty() + p1 =~= p1);
    let with_metrics = |metrics: Seq<MetricView>| PayloadView { metrics, ..v1 };
    assert forall|i: int| 0 <= i < p2.len() implies fields::is_sound(
        kind,
        #[trigger] p2[i],
        limit,
    ) && step(with_metrics(p.metrics.take(i)), p2[i]) == with_metrics(p.metrics.take(i + 1)) by {
        assert(list[p1.len() + i] == p2[i]);
        fields::lemma_message_at(list, p1.len() + i);
        metrics::lemma_metric(p.metrics[i], (limit - 1) as nat);
        assert(p.metrics.take(i).push(p.metrics[i]) =~= p.metrics.take(i + 1));
    }
    fields::lemma_list_behind(kind, limit, v0, p1, p2, step, p.metrics, with_metrics);
    let v2 = with_metrics(p.metrics);
    let v3 = PayloadView { seq: p.seq, ..v2 };
    fields::lemma_part_behind(kind, limit, v0, p1 + p2, p3, step, v2, v3);
    let v4 = PayloadView { uuid: p.uuid, ..v3 };
    fields::lemma_part_behind(kind, limit, v0, p1 + p2 + p3, p4, step, v3, v4);
    fields::lemma_part_behind(kind, limit, v0, p1 + p2 + p3 + p4, p5, step, v4, p);
    fields::lemma_sound_message(kind, list, limit);
}

} // verus!
