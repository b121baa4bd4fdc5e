//! The bytes of metrics, and of templates, which hold metrics in turn.

use crate::payload::codec::data_set;
use crate::payload::codec::meta_data;
use crate::payload::codec::parameter;
use crate::payload::codec::property;
use crate::payload::codec::{low_half, low_half_of};
use crate::payload::fields::{self, FieldValue, FieldValueView, FieldView};
use crate::payload::metric::{self, Double, Single, Value, ValueView};
use crate::payload::nested::{
    self, DataSet, DataSetView, MetaData, MetaDataView, Parameter, PropertySet, PropertySetView,
    Template, TemplateView,
};
use crate::payload::{self, Metric, MetricView};
use crate::schema::{self, FieldType, MessageKind};
use crate::wire;
use vstd::prelude::*;

verus! {

// ---------------------------------------------------------------------------
// Reading
// ---------------------------------------------------------------------------

/// A metric with a value.
pub open spec fn valued(m: MetricView, value: ValueView) -> MetricView {
    MetricView { value: Some(value), ..m }
}

/// The metadata of a metric, or none of it.
pub open spec fn held_meta_data(m: MetricView) -> MetaDataView {
    match m.metadata {
        Some(d) => d,
        None => nested::no_meta_data(),
    }
}

/// The properties of a metric, or none of them.
pub open spec fn held_properties(m: MetricView) -> PropertySetView {
    match m.properties {
        Some(s) => s,
        None => nested::no_property_set(),
    }
}

/// The data set that a metric holds, or an empty one.
pub open spec fn held_data_set(m: MetricView) -> DataSetView {
    match m.value {
        Some(ValueView::DatasetValue(d)) => d,
        _ => nested::no_data_set(),
    }
}

/// The template that a metric holds, or an empty one.
pub open spec fn held_template(m: MetricView) -> TemplateView {
    match m.value {
        Some(ValueView::TemplateValue(t)) => t,
        _ => nested::no_template(),
    }
}

/// A metric, with one more field taken up. `limit` is how many more levels
/// of messages may open.
pub open spec fn with_metric(m: MetricView, f: FieldView, limit: nat) -> MetricView
    decreases limit, 0nat,
{
    match (f.number, f.value) {
        (1, FieldValueView::Text(v)) => MetricView { name: Some(v), ..m },
        (2, FieldValueView::Number(v)) => MetricView { alias: Some(v), ..m },
        (3, FieldValueView::Number(v)) => MetricView { timestamp: Some(v), ..m },
        (4, FieldValueView::Number(v)) => MetricView { datatype: Some(low_half(v)), ..m },
        (5, FieldValueView::Number(v)) => MetricView { is_historical: Some(v != 0), ..m },
        (6, FieldValueView::Number(v)) => MetricView { is_transient: Some(v != 0), ..m },
        (7, FieldValueView::Number(v)) => MetricView { is_null: Some(v != 0), ..m },
        (8, FieldValueView::Message(body)) => if limit > 0 {
            MetricView {
                metadata: Some(meta_data::meta_data_from(held_meta_data(m), body)),
                ..m
            }
        } else {
            m
        },
        (9, FieldValueView::Message(body)) => if limit > 0 {
            MetricView {
                properties: Some(
                    property::set_from(held_properties(m), body, (limit - 1) as nat),
                ),
                ..m
            }
        } else {
            m
        },
        (10, FieldValueView::Number(v)) => valued(m, ValueView::IntValue(low_half(v))),
        (11, FieldValueView::Number(v)) => valued(m, ValueView::LongValue(v)),
        (12, FieldValueView::Single(v)) => valued(m, ValueView::FloatValue(v)),
        (13, FieldValueView::Double(v)) => valued(m, ValueView::DoubleValue(v)),
        (14, FieldValueView::Number(v)) => valued(m, ValueView::BooleanValue(v != 0)),
        (15, FieldValueView::Text(v)) => valued(m, ValueView::StringValue(v)),
        (16, FieldValueView::Bytes(v)) => valued(m, ValueView::BytesValue(v)),
        (17, FieldValueView::Message(body)) => if limit > 0 {
            valued(
                m,
                ValueView::DatasetValue(
                    data_set::data_set_from(held_data_set(m), body, (limit - 1) as nat),
                ),
            )
        } else {
            m
        },
        (18, FieldValueView::Message(body)) => if limit > 0 {
            valued(
                m,
                ValueView::TemplateValue(
                    template_with_all(
                        held_template(m),
                        fields::fields_in(MessageKind::Template, body),
                        (limit - 1) as nat,
                    ),
                ),
            )
        } else {
            m
        },
        (19, FieldValueView::Message(_)) => if limit > 0 {
            valued(m, ValueView::ExtensionValue)
        } else {
            m
        },
        _ => m,
    }
}

/// A metric, with a run of fields taken up.
pub open spec fn metric_with_all(m: MetricView, fs: Seq<FieldView>, limit: nat) -> MetricView
    decreases limit, fs.len(),
{
    if fs.len() == 0 {
        m
    } else {
        with_metric(metric_with_all(m, fs.drop_last(), limit), fs.last(), limit)
    }
}

/// A template, with one more field taken up.
pub open spec fn with_template(t: TemplateView, f: FieldView, limit: nat) -> TemplateView
    decreases limit, 0nat,
{
    match (f.number, f.value) {
        (1, FieldValueView::Text(v)) => TemplateView { version: Some(v), ..t },
        (2, FieldValueView::Message(body)) => if limit > 0 {
            TemplateView {
                metrics: t.metrics.push(
                    metric_with_all(
                        payload::no_metric(),
                        fields::fields_in(MessageKind::Metric, body),
                        (limit - 1) as nat,
                    ),
                ),
                ..t
            }
        } else {
            t
        },
        (3, FieldValueView::Message(body)) => if limit > 0 {
            TemplateView {
                parameters: t.parameters.push(
                    parameter::parameter_from(
                        parameter::no_parameter(),
                        body,
                        (limit - 1) as nat,
                    ),
                ),
                ..t
            }
        } else {
            t
        },
        (4, FieldValueView::Text(v)) => TemplateView { template_ref: Some(v), ..t },
        (5, FieldValueView::Number(v)) => TemplateView { is_definition: Some(v != 0), ..t },
        _ => t,
    }
}

/// A template, with a run of fields taken up.
pub open spec fn template_with_all(t: TemplateView, fs: Seq<FieldView>, limit: nat) -> TemplateView
    decreases limit, fs.len(),
{
    if fs.len() == 0 {
        t
    } else {
        with_template(template_with_all(t, fs.drop_last(), limit), fs.last(), limit)
    }
}

/// Takes up one field of a metric.
pub open spec fn metric_step(limit: nat) -> spec_fn(MetricView, FieldView) -> MetricView {
    |m: MetricView, f: FieldView| with_metric(m, f, limit)
}

/// A metric, with the fields of `bytes` taken up.
pub open spec fn metric_from(m: MetricView, bytes: Seq<u8>, limit: nat) -> MetricView {
    metric_with_all(m, fields::fields_in(MessageKind::Metric, bytes), limit)
}

/// The metric that bytes spell, if the schema accepts them.
pub open spec fn metric_read(bytes: Seq<u8>) -> Option<MetricView> {
    if schema::accepts(MessageKind::Metric, bytes, wire::RECURSION_LIMIT as nat) {
        Some(metric_from(payload::no_metric(), bytes, wire::RECURSION_LIMIT as nat))
    } else {
        None
    }
}

/// Fields are taken up one by one.
pub proof fn lemma_metric_folds(m: MetricView, fs: Seq<FieldView>, limit: nat)
    ensures
        metric_with_all(m, fs, limit) == fields::folded(m, fs, metric_step(limit)),
    decreases fs.len(),
{
    if fs.len() > 0 {
        lemma_metric_folds(m, fs.drop_last(), limit);
    }
}

/// Takes up one field of a template.
pub open spec fn template_step(limit: nat) -> spec_fn(TemplateView, FieldView) -> TemplateView {
    |t: TemplateView, f: FieldView| with_template(t, f, limit)
}

/// A template, with the fields of `bytes` taken up.
pub open spec fn template_from(t: TemplateView, bytes: Seq<u8>, limit: nat) -> TemplateView {
    template_with_all(t, fields::fields_in(MessageKind::Template, bytes), limit)
}

/// The template that bytes spell, if the schema accepts them.
pub open spec fn template_read(bytes: Seq<u8>) -> Option<TemplateView> {
    if schema::accepts(MessageKind::Template, bytes, wire::RECURSION_LIMIT as nat) {
        Some(template_from(nested::no_template(), bytes, wire::RECURSION_LIMIT as nat))
    } else {
        None
    }
}

/// Fields are taken up one by one.
pub proof fn lemma_template_folds(t: TemplateView, fs: Seq<FieldView>, limit: nat)
    ensures
        template_with_all(t, fs, limit) == fields::folded(t, fs, template_step(limit)),
    decreases fs.len(),
{
    if fs.len() > 0 {
        lemma_template_folds(t, fs.drop_last(), limit);
    }
}

/// The data set of a value, or an empty one.
fn data_set_of(held: Option<Value>) -> (d: DataSet)
    ensures
        d@ == held_data_set(MetricView { value: payload::view_of(held), ..payload::no_metric() }),
{
    match held {
        Some(Value::DatasetValue(d)) => d,
        _ => DataSet::default(),
    }
}

/// The template of a value, or an empty one.
fn template_of(held: Option<Value>) -> (t: Template)
    ensures
        t@ == held_template(MetricView { value: payload::view_of(held), ..payload::no_metric() }),
{
    match held {
        Some(Value::TemplateValue(t)) => t,
        _ => Template::default(),
    }
}

/// Take up the fields of `bytes`.
pub(crate) fn merge_metric(held: Metric, bytes: &[u8], limit: u32) -> (m: Metric)
    ensures
        m@ == metric_from(held@, bytes@, limit as nat),
    decreases limit,
{
    let read = fields::read_fields(MessageKind::Metric, bytes);
    let ghost fs = fields::field_views(read@);
    let ghost start = held@;
    let mut m = held;
    let mut i: usize = 0;
    while i < read.len()
        invariant
            i <= read.len(),
            fs == fields::field_views(read@),
            m@ == fields::folded(start, fs.take(i as int), metric_step(limit as nat)),
        decreases read.len() - i,
    {
        let ghost before = m@;
        match (read[i].number, &read[i].value) {
            (1, FieldValue::Text(v)) => m.name = Some(v.clone()),
            (2, FieldValue::Number(v)) => m.alias = Some(*v),
            (3, FieldValue::Number(v)) => m.timestamp = Some(*v),
            (4, FieldValue::Number(v)) => m.datatype = Some(low_half_of(*v)),
            (5, FieldValue::Number(v)) => m.is_historical = Some(*v != 0),
            (6, FieldValue::Number(v)) => m.is_transient = Some(*v != 0),
            (7, FieldValue::Number(v)) => m.is_null = Some(*v != 0),
            (8, FieldValue::Message(body)) => if limit > 0 {
                let held = match m.metadata.take() {
                    Some(held) => held,
                    None => MetaData::default(),
                };
                m.metadata = Some(meta_data::merge_meta_data(held, body.as_slice()));
            },
            (9, FieldValue::Message(body)) => if limit > 0 {
                let held = match m.properties.take() {
                    Some(held) => held,
                    None => PropertySet::default(),
                };
                m.properties = Some(property::merge_set(held, body.as_slice(), limit - 1));
            },
            (10, FieldValue::Number(v)) => m.value = Some(Value::IntValue(low_half_of(*v))),
            (11, FieldValue::Number(v)) => m.value = Some(Value::LongValue(*v)),
            (12, FieldValue::Single(v)) => m.value = Some(Value::FloatValue(Single(*v))),
            (13, FieldValue::Double(v)) => m.value = Some(Value::DoubleValue(Double(*v))),
            (14, FieldValue::Number(v)) => m.value = Some(Value::BooleanValue(*v != 0)),
            (15, FieldValue::Text(v)) => m.value = Some(Value::StringValue(v.clone())),
            (16, FieldValue::Bytes(v)) => m.value = Some(Value::BytesValue(metric::copy_bytes(v))),
            (17, FieldValue::Message(body)) => if limit > 0 {
                let held = data_set_of(m.value.take());
                m.value = Some(
                    Value::DatasetValue(
                        data_set::merge_data_set(held, body.as_slice(), limit - 1),
                    ),
                );
            },
            (18, FieldValue::Message(body)) => if limit > 0 {
                let held = template_of(m.value.take());
                m.value = Some(
                    Value::TemplateValue(merge_template(held, body.as_slice(), limit - 1)),
                );
            },
            (19, FieldValue::Message(_)) => if limit > 0 {
                m.value = Some(Value::ExtensionValue);
            },
            _ => {},
        }
        assert(m@ == with_metric(before, fs[i as int], limit as nat));
        proof {
            fields::lemma_folded_next(start, fs, i as int, metric_step(limit as nat));
        }
        i += 1;
    }
    assert(fs.take(i as int) =~= fs);
    proof {
        lemma_metric_folds(start, fs, limit as nat);
    }
    m
}

/// Take up the fields of `bytes`.
pub(crate) fn merge_template(held: Template, bytes: &[u8], limit: u32) -> (t: Template)
    ensures
        t@ == template_from(held@, bytes@, limit as nat),
    decreases limit,
{
    let read = fields::read_fields(MessageKind::Template, bytes);
    let ghost fs = fields::field_views(read@);
    let ghost start = held@;
    let mut t = held;
    let mut i: usize = 0;
    while i < read.len()
        invariant
            i <= read.len(),
            fs == fields::field_views(read@),
            t@ == fields::folded(start, fs.take(i as int), template_step(limit as nat)),
        decreases read.len() - i,
    {
        let ghost before = t@;
        match (read[i].number, &read[i].value) {
            (1, FieldValue::Text(v)) => {
                t.version = Some(v.clone());
                assert(t@.metrics =~= before.metrics);
            },
            (2, FieldValue::Message(body)) => if limit > 0 {
                t.metrics.push(merge_metric(Metric::default(), body.as_slice(), limit - 1));
                assert(t@.metrics =~= before.metrics.push(t.metrics@.last()@));
            },
            (3, FieldValue::Message(body)) => if limit > 0 {
                t.parameters.push(
                    parameter::merge_parameter(Parameter::default(), body.as_slice(), limit - 1),
                );
                assert(t@.parameters =~= before.parameters.push(t.parameters@.last()@));
                assert(t@.metrics =~= before.metrics);
            },
            (4, FieldValue::Text(v)) => {
                t.template_ref = Some(v.clone());
                assert(t@.metrics =~= before.metrics);
            },
            (5, FieldValue::Number(v)) => {
                t.is_definition = Some(*v != 0);
                assert(t@.metrics =~= before.metrics);
            },
            _ => {},
        }
        assert(t@ == with_template(before, fs[i as int], limit as nat));
        proof {
            fields::lemma_folded_next(start, fs, i as int, template_step(limit as nat));
        }
        i += 1;
    }
    assert(fs.take(i as int) =~= fs);
    proof {
        lemma_template_folds(start, fs, limit as nat);
    }
    t
}

// ---------------------------------------------------------------------------
// Writing
// ---------------------------------------------------------------------------

/// The bytes of metadata, if there is any.
pub open spec fn meta_data_body(held: Option<MetaDataView>) -> Option<Seq<u8>> {
    match held {
        Some(d) => Some(meta_data::meta_data_bytes(d)),
        None => None,
    }
}

/// The bytes of properties, if there are any.
pub open spec fn properties_body(held: Option<PropertySetView>) -> Option<Seq<u8>> {
    match held {
        Some(s) => Some(property::set_bytes(s)),
        None => None,
    }
}

/// The field of the value of a metric.
pub open spec fn value_fields(value: ValueView) -> Seq<FieldView>
    decreases value,
{
    match value {
        ValueView::IntValue(v) => fields::number_in(10, Some(v as u64)),
        ValueView::LongValue(v) => fields::number_in(11, Some(v)),
        ValueView::FloatValue(v) => seq![
            FieldView { number: 12, value: FieldValueView::Single(v) },
        ],
        ValueView::DoubleValue(v) => seq![
            FieldView { number: 13, value: FieldValueView::Double(v) },
        ],
        ValueView::BooleanValue(v) => fields::number_in(14, Some(fields::flag_number(v))),
        ValueView::StringValue(v) => fields::text_in(15, Some(v)),
        ValueView::BytesValue(v) => fields::bytes_in(16, Some(v)),
        ValueView::DatasetValue(d) => fields::message_in(17, Some(data_set::data_set_bytes(d))),
        ValueView::TemplateValue(t) => fields::message_in(
            18,
            Some(fields::fields_bytes(template_fields(t))),
        ),
        ValueView::ExtensionValue => fields::message_in(19, Some(Seq::empty())),
    }
}

/// The fields of a metric that hold no message and are no value.
pub open spec fn plain_fields(m: MetricView) -> Seq<FieldView> {
    fields::text_in(1, m.name) + fields::number_in(2, m.alias) + fields::number_in(3, m.timestamp)
        + fields::number_in(4, fields::widened(m.datatype)) + fields::number_in(
        5,
        fields::flagged(m.is_historical),
    ) + fields::number_in(6, fields::flagged(m.is_transient)) + fields::number_in(
        7,
        fields::flagged(m.is_null),
    )
}

/// The fields of a metric, in the order of their numbers.
pub open spec fn metric_fields(m: MetricView) -> Seq<FieldView>
    decreases m,
{
    plain_fields(m) + fields::message_in(8, meta_data_body(m.metadata)) + fields::message_in(
        9,
        properties_body(m.properties),
    ) + match m.value {
        Some(value) => value_fields(value),
        None => Seq::empty(),
    }
}

/// The fields of a template, in the order of their numbers.
pub open spec fn template_fields(t: TemplateView) -> Seq<FieldView>
    decreases t,
{
    fields::text_in(1, t.version) + fields::messages_in(
        2,
        Seq::new(
            t.metrics.len(),
            |i: int|
                if 0 <= i < t.metrics.len() {
                    fields::fields_bytes(metric_fields(t.metrics[i]))
                } else {
                    arbitrary()
                },
        ),
    ) + fields::messages_in(3, parameter::parameter_bodies(t.parameters)) + fields::text_in(
        4,
        t.template_ref,
    ) + fields::number_in(5, fields::flagged(t.is_definition))
}

/// The bytes of a metric.
pub open spec fn metric_bytes(m: MetricView) -> Seq<u8> {
    fields::fields_bytes(metric_fields(m))
}

/// The bytes of a template.
pub open spec fn template_bytes(t: TemplateView) -> Seq<u8> {
    fields::fields_bytes(template_fields(t))
}

/// The bytes of each metric.
pub open spec fn metric_bodies(metrics: Seq<MetricView>) -> Seq<Seq<u8>> {
    metrics.map_values(|m: MetricView| metric_bytes(m))
}

/// The parts of the message, one behind the other.
pub proof fn lemma_template_parts(t: TemplateView)
    ensures
        template_fields(t) == fields::text_in(1, t.version) + fields::messages_in(
            2,
            metric_bodies(t.metrics),
        ) + fields::messages_in(3, parameter::parameter_bodies(t.parameters)) + fields::text_in(
            4,
            t.template_ref,
        ) + fields::number_in(5, fields::flagged(t.is_definition)),
{
    assert(template_fields(t) =~= fields::text_in(1, t.version) + fields::messages_in(
        2,
        metric_bodies(t.metrics),
    ) + fields::messages_in(3, parameter::parameter_bodies(t.parameters)) + fields::text_in(
        4,
        t.template_ref,
    ) + fields::number_in(5, fields::flagged(t.is_definition)));
}

/// Write the value of a metric.
fn write_value(value: &Value, writer: &mut fields::Writer)
    requires
        old(writer).is_exact(),
    ensures
        final(writer).is_exact(),
        final(writer).written() == old(writer).written() + value_fields(value@),
    decreases value,
{
    match value {
        Value::IntValue(v) => writer.number(10, Some(*v as u64)),
        Value::LongValue(v) => writer.number(11, Some(*v)),
        Value::FloatValue(v) => writer.single(12, v.0),
        Value::DoubleValue(v) => writer.double(13, v.0),
        Value::BooleanValue(v) => writer.flag(14, Some(*v)),
        Value::StringValue(v) => writer.text(15, v),
        Value::BytesValue(v) => writer.raw(16, v),
        Value::DatasetValue(d) => {
            let body = data_set::encode_data_set(d);
            writer.message(17, &body)
        },
        Value::TemplateValue(t) => {
            let body = encode_template(t);
            writer.message(18, &body)
        },
        Value::ExtensionValue => {
            let body: Vec<u8> = Vec::new();
            assert(body@ =~= Seq::empty());
            writer.message(19, &body)
        },
    }
}

/// Write metadata, if there is any.
fn write_meta_data(held: &Option<MetaData>, writer: &mut fields::Writer)
    requires
        old(writer).is_exact(),
    ensures
        final(writer).is_exact(),
        final(writer).written() == old(writer).written() + fields::message_in(
            8,
            meta_data_body(payload::view_of(*held)),
        ),
{
    match held {
        Some(d) => {
            let body = meta_data::encode_meta_data(d);
            writer.message(8, &body)
        },
        None => {
            assert(writer.written() + Seq::empty() =~= writer.written());
        },
    }
}

/// Write properties, if there are any.
fn write_held_properties(held: &Option<PropertySet>, writer: &mut fields::Writer)
    requires
        old(writer).is_exact(),
    ensures
        final(writer).is_exact(),
        final(writer).written() == old(writer).written() + fields::message_in(
            9,
            properties_body(payload::view_of(*held)),
        ),
{
    match held {
        Some(s) => {
            let body = property::encode_set(s);
            writer.message(9, &body)
        },
        None => {
            assert(writer.written() + Seq::empty() =~= writer.written());
        },
    }
}

/// Write a metric.
pub(crate) fn encode_metric(m: &Metric) -> (bytes: Vec<u8>)
    ensures
        bytes@ == metric_bytes(m@),
    decreases m,
{
    let mut writer = fields::Writer::start();
    writer.held_text(1, &m.name);
    assert(writer.written() =~= fields::text_in(1, m@.name));
    writer.number(2, m.alias);
    writer.number(3, m.timestamp);
    writer.small(4, m.datatype);
    writer.flag(5, m.is_historical);
    writer.flag(6, m.is_transient);
    writer.flag(7, m.is_null);
    write_meta_data(&m.metadata, &mut writer);
    write_held_properties(&m.properties, &mut writer);
    match &m.value {
        Some(value) => write_value(value, &mut writer),
        None => {
            assert(writer.written() + Seq::empty() =~= writer.written());
        },
    }
    writer.finish()
}

/// Write a list, one item to a field.
pub(crate) fn write_metrics(number: u32, items: &Vec<Metric>, writer: &mut fields::Writer)
    requires
        1 <= number < 0x2000_0000,
        old(writer).is_exact(),
    ensures
        final(writer).is_exact(),
        final(writer).written() == old(writer).written() + fields::messages_in(
            number,
            metric_bodies(nested::views(items@)),
        ),
    decreases items,
{
    let ghost all = fields::messages_in(number, metric_bodies(nested::views(items@)));
    let ghost before = writer.written();
    let mut i: usize = 0;
    assert(writer.written() =~= before + all.take(0));
    while i < items.len()
        invariant
            1 <= number < 0x2000_0000,
            i <= items.len(),
            all == fields::messages_in(number, metric_bodies(nested::views(items@))),
            writer.is_exact(),
            writer.written() == before + all.take(i as int),
        decreases items.len() - i,
    {
        assert(decreases_to!(items => items@[i as int]));
        let body = encode_metric(&items[i]);
        writer.message(number, &body);
        assert(writer.written() =~= before + all.take(i + 1));
        i += 1;
    }
    assert(all.take(i as int) =~= all);
}

/// Write a template.
pub(crate) fn encode_template(t: &Template) -> (bytes: Vec<u8>)
    ensures
        bytes@ == template_bytes(t@),
    decreases t,
{
    let mut writer = fields::Writer::start();
    writer.held_text(1, &t.version);
    assert(writer.written() =~= fields::text_in(1, t@.version));
    write_metrics(2, &t.metrics, &mut writer);
    parameter::write_parameters(3, &t.parameters, &mut writer);
    writer.held_text(4, &t.template_ref);
    writer.flag(5, t.is_definition);
    proof {
        assert(nested::views(t.metrics@) =~= t@.metrics);
        lemma_template_parts(t@);
    }
    writer.finish()
}

impl Metric {
    /// Read a metric from its bytes.
    ///
    /// # Errors
    ///
    /// Fails when the schema does not accept the bytes.
    pub fn decode(bytes: &[u8]) -> (read: Result<Self, prost::DecodeError>)
        ensures
            match read {
                Ok(read) => metric_read(bytes@) == Some(read@),
                Err(error) => {
                    &&& metric_read(bytes@) is None
                    &&& wire::error_fault(error) == schema::fault_in(
                        MessageKind::Metric,
                        bytes@,
                        wire::RECURSION_LIMIT as nat,
                    )
                },
            },
    {
        match schema::check_message(MessageKind::Metric, bytes, wire::RECURSION_LIMIT) {
            Ok(()) => Ok(merge_metric(Metric::default(), bytes, wire::RECURSION_LIMIT)),
            Err(error) => Err(error),
        }
    }

    /// Write a metric.
    pub fn encode_to_vec(&self) -> (bytes: Vec<u8>)
        ensures
            bytes@ == metric_bytes(self@),
    {
        encode_metric(self)
    }
}

impl Template {
    /// Read a template from its bytes.
    ///
    /// # Errors
    ///
    /// Fails when the schema does not accept the bytes.
    pub fn decode(bytes: &[u8]) -> (read: Result<Self, prost::DecodeError>)
        ensures
            match read {
                Ok(read) => template_read(bytes@) == Some(read@),
                Err(error) => {
                    &&& template_read(bytes@) is None
                    &&& wire::error_fault(error) == schema::fault_in(
                        MessageKind::Template,
                        bytes@,
                        wire::RECURSION_LIMIT as nat,
                    )
                },
            },
    {
        match schema::check_message(MessageKind::Template, bytes, wire::RECURSION_LIMIT) {
            Ok(()) => Ok(merge_template(Template::default(), bytes, wire::RECURSION_LIMIT)),
            Err(error) => Err(error),
        }
    }

    /// Write a template.
    pub fn encode_to_vec(&self) -> (bytes: Vec<u8>)
        ensures
            bytes@ == template_bytes(self@),
    {
        encode_template(self)
    }
}

// ---------------------------------------------------------------------------
// What is written is read back
// ---------------------------------------------------------------------------

/// Whether a metric nests no deeper than `limit` levels.
pub open spec fn metric_fits(m: MetricView, limit: nat) -> bool
    decreases limit,
{
    &&& m.metadata is Some ==> limit > 0
    &&& m.properties matches Some(s) ==> limit > 0 && property::set_fits(s, (limit - 1) as nat)
    &&& match m.value {
        Some(ValueView::DatasetValue(d)) => limit > 0 && data_set::data_set_fits(
            d,
            (limit - 1) as nat,
        ),
        Some(ValueView::TemplateValue(t)) => limit > 0 && template_fits(t, (limit - 1) as nat),
        Some(ValueView::ExtensionValue) => limit > 0,
        _ => true,
    }
}

/// Whether a template nests no deeper than `limit` levels.
pub open spec fn template_fits(t: TemplateView, limit: nat) -> bool
    decreases limit,
{
    &&& t.metrics.len() > 0 ==> limit > 0
    &&& forall|i: int|
        0 <= i < t.metrics.len() ==> metric_fits(#[trigger] t.metrics[i], (limit - 1) as nat)
    &&& t.parameters.len() > 0 ==> limit > 0
    &&& forall|i: int|
        0 <= i < t.parameters.len() ==> parameter::parameter_fits(
            #[trigger] t.parameters[i],
            (limit - 1) as nat,
        )
}

/// The types of the fields of a metric.
proof fn lemma_metric_field_types()
    ensures
        schema::field_type(MessageKind::Metric, 1) == FieldType::Text,
        schema::field_type(MessageKind::Metric, 2) == FieldType::Varint,
        schema::field_type(MessageKind::Metric, 3) == FieldType::Varint,
        schema::field_type(MessageKind::Metric, 4) == FieldType::Varint,
        schema::field_type(MessageKind::Metric, 5) == FieldType::Varint,
        schema::field_type(MessageKind::Metric, 6) == FieldType::Varint,
        schema::field_type(MessageKind::Metric, 7) == FieldType::Varint,
        schema::field_type(MessageKind::Metric, 8) == FieldType::Nested(MessageKind::MetaData),
        schema::field_type(MessageKind::Metric, 9) == FieldType::Nested(MessageKind::PropertySet),
{
    reveal(schema::field_type);
}

/// A metric takes up the field of a value as that value.
proof fn lemma_value_taken(held: MetricView, value: ValueView, limit: nat)
    requires
        held.value is None,
        metric_fits(valued(payload::no_metric(), value), limit),
        value_fields(value)[0].value matches FieldValueView::Message(body) ==> body.len()
            <= u64::MAX,
    ensures
        value_fields(value).len() == 1,
        fields::is_sound(MessageKind::Metric, value_fields(value)[0], limit),
        with_metric(held, value_fields(value)[0], limit) == valued(held, value),
    decreases limit, 0nat,
{
    reveal(schema::field_type);
    match value {
        ValueView::DatasetValue(d) => {
            data_set::lemma_data_set(d, (limit - 1) as nat);
        },
        ValueView::TemplateValue(t) => {
            lemma_template(t, (limit - 1) as nat);
        },
        ValueView::ExtensionValue => {
            fields::lemma_empty_message(MessageKind::Extension, (limit - 1) as nat);
        },
        _ => {},
    }
}

/// The plain fields of a metric are taken up as what they were written from.
#[verifier::spinoff_prover]
#[verifier::rlimit(40)]
proof fn lemma_plain_fields(m: MetricView, limit: nat)
    ensures
        fields::folded(payload::no_metric(), plain_fields(m), metric_step(limit)) == (MetricView {
            metadata: None,
            properties: None,
            value: None,
            ..m
        }),
        fields::all_sound(MessageKind::Metric, plain_fields(m), limit),
{
    lemma_metric_field_types();
    let s = metric_step(limit);
    let v0 = payload::no_metric();
    let a0 = Seq::<FieldView>::empty();
    let v1 = MetricView { name: m.name, ..v0 };
    let p1 = fields::text_in(1, m.name);
    fields::lemma_part_behind(MessageKind::Metric, limit, v0, a0, p1, s, v0, v1);
    let a1 = a0 + p1;
    let v2 = MetricView { alias: m.alias, ..v1 };
    let p2 = fields::number_in(2, m.alias);
    fields::lemma_part_behind(MessageKind::Metric, limit, v0, a1, p2, s, v1, v2);
    let a2 = a1 + p2;
    let v3 = MetricView { timestamp: m.timestamp, ..v2 };
    let p3 = fields::number_in(3, m.timestamp);
    fields::lemma_part_behind(MessageKind::Metric, limit, v0, a2, p3, s, v2, v3);
    let a3 = a2 + p3;
    let v4 = MetricView { datatype: m.datatype, ..v3 };
    let p4 = fields::number_in(4, fields::widened(m.datatype));
    fields::lemma_part_behind(MessageKind::Metric, limit, v0, a3, p4, s, v3, v4);
    let a4 = a3 + p4;
    let v5 = MetricView { is_historical: m.is_historical, ..v4 };
    let p5 = fields::number_in(5, fields::flagged(m.is_historical));
    fields::lemma_part_behind(MessageKind::Metric, limit, v0, a4, p5, s, v4, v5);
    let a5 = a4 + p5;
    let v6 = MetricView { is_transient: m.is_transient, ..v5 };
    let p6 = fields::number_in(6, fields::flagged(m.is_transient));
    fields::lemma_part_behind(MessageKind::Metric, limit, v0, a5, p6, s, v5, v6);
    let a6 = a5 + p6;
    let v7 = MetricView { is_null: m.is_null, ..v6 };
    let p7 = fields::number_in(7, fields::flagged(m.is_null));
    fields::lemma_part_behind(MessageKind::Metric, limit, v0, a6, p7, s, v6, v7);
    let a7 = a6 + p7;
    assert(a1 =~= p1);
}

/// A metric reads back as itself at any level it fits, from bytes that hold its
/// fields and nothing else.
pub proof fn lemma_metric(m: MetricView, limit: nat)
    requires
        metric_fits(m, limit),
        metric_bytes(m).len() <= u64::MAX,
    ensures
        metric_from(payload::no_metric(), metric_bytes(m), limit) == m,
        fields::passes(MessageKind::Metric, metric_bytes(m), limit),
        fields::holds_fields_only(MessageKind::Metric, metric_bytes(m), limit),
        schema::accepts(MessageKind::Metric, metric_bytes(m), limit),
    decreases limit, 1nat,
{
    lemma_metric_field_types();
    lemma_plain_fields(m, limit);
    let list = metric_fields(m);
    let below = (limit - 1) as nat;
    let s = metric_step(limit);
    let v0 = payload::no_metric();
    let v7 = MetricView { metadata: None, properties: None, value: None, ..m };
    let a7 = plain_fields(m);
    let p8 = fields::message_in(8, meta_data_body(m.metadata));
    let p9 = fields::message_in(9, properties_body(m.properties));
    let p10 = match m.value {
        Some(value) => value_fields(value),
        None => Seq::empty(),
    };
    assert(list == a7 + p8 + p9 + p10);

    let v8 = MetricView { metadata: m.metadata, ..v7 };
    if let Some(d) = m.metadata {
        let at = a7.len() as int;
        assert(list[at] == p8[0]);
        fields::lemma_message_at(list, at);
        meta_data::lemma_meta_data(d, below);
    }
    fields::lemma_part_behind(MessageKind::Metric, limit, v0, a7, p8, s, v7, v8);

    let v9 = MetricView { properties: m.properties, ..v8 };
    if let Some(set) = m.properties {
        let at = (a7 + p8).len() as int;
        assert(list[at] == p9[0]);
        fields::lemma_message_at(list, at);
        property::lemma_set(set, below);
    }
    fields::lemma_part_behind(MessageKind::Metric, limit, v0, a7 + p8, p9, s, v8, v9);

    if let Some(value) = m.value {
        let at = (a7 + p8 + p9).len() as int;
        assert(p10.len() == 1);
        assert(list[at] == p10[0]);
        fields::lemma_message_at(list, at);
        lemma_value_taken(v9, value, limit);
    }
    fields::lemma_part_behind(MessageKind::Metric, limit, v0, a7 + p8 + p9, p10, s, v9, m);
    fields::lemma_sound_message(MessageKind::Metric, list, limit);
    lemma_metric_folds(v0, list, limit);
}

/// A template reads back as itself at any level it fits, from bytes that hold its
/// fields and nothing else.
pub proof fn lemma_template(t: TemplateView, limit: nat)
    requires
        template_fits(t, limit),
        template_bytes(t).len() <= u64::MAX,
    ensures
        template_from(nested::no_template(), template_bytes(t), limit) == t,
        fields::passes(MessageKind::Template, template_bytes(t), limit),
        fields::holds_fields_only(MessageKind::Template, template_bytes(t), limit),
        schema::accepts(MessageKind::Template, template_bytes(t), limit),
    decreases limit, 1nat,
{
    reveal(schema::field_type);
    lemma_template_parts(t);
    let kind = MessageKind::Template;
    let list = template_fields(t);
    let step = template_step(limit);
    let below = (limit - 1) as nat;
    let t0 = nested::no_template();
    let t1 = TemplateView { version: t.version, ..t0 };
    let p1 = fields::text_in(1, t.version);
    let p2 = fields::messages_in(2, metric_bodies(t.metrics));
    let p3 = fields::messages_in(3, parameter::parameter_bodies(t.parameters));
    let p4 = fields::text_in(4, t.template_ref);
    let p5 = fields::number_in(5, fields::flagged(t.is_definition));
    assert(list == p1 + p2 + p3 + p4 + p5);
    fields::lemma_part_behind(kind, limit, t0, Seq::empty(), p1, step, t0, t1);
    assert(Seq::empty() + p1 =~= p1);

    let with_metrics = |metrics: Seq<MetricView>| TemplateView { metrics, ..t1 };
    assert forall|i: int| 0 <= i < p2.len() implies fields::is_sound(
        kind,
        #[trigger] p2[i],
        limit,
    ) && step(with_metrics(t.metrics.take(i)), p2[i]) == with_metrics(t.metrics.take(i + 1)) by {
        assert(list[p1.len() + i] == p2[i]);
        fields::lemma_message_at(list, p1.len() + i);
        lemma_metric(t.metrics[i], below);
        assert(t.metrics.take(i).push(t.metrics[i]) =~= t.metrics.take(i + 1));
    }
    fields::lemma_list_behind(kind, limit, t0, p1, p2, step, t.metrics, with_metrics);
    let t2 = with_metrics(t.metrics);

    let with_parameters = |parameters: Seq<nested::ParameterView>| TemplateView {
        parameters,
        ..t2
    };
    assert forall|i: int| 0 <= i < p3.len() implies fields::is_sound(
        kind,
        #[trigger] p3[i],
        limit,
    ) && step(with_parameters(t.parameters.take(i)), p3[i]) == with_parameters(
        t.parameters.take(i + 1),
    ) by {
        let at = (p1 + p2).len() + i;
        assert(list[at] == p3[i]);
        fields::lemma_message_at(list, at);
        parameter::lemma_parameter(t.parameters[i], below);
        assert(t.parameters.take(i).push(t.parameters[i]) =~= t.parameters.take(i + 1));
    }
    fields::lemma_list_behind(
        kind,
        limit,
        t0,
        p1 + p2,
        p3,
        step,
        t.parameters,
        with_parameters,
    );
    let t3 = with_parameters(t.parameters);
    let t4 = TemplateView { template_ref: t.template_ref, ..t3 };
    fields::lemma_part_behind(kind, limit, t0, p1 + p2 + p3, p4, step, t3, t4);
    fields::lemma_part_behind(kind, limit, t0, p1 + p2 + p3 + p4, p5, step, t4, t);
    fields::lemma_sound_message(kind, list, limit);
    lemma_template_folds(t0, list, limit);
}

/// Reading a metric gives back what was written, and what is written holds its
/// fields and nothing else.
pub proof fn law_a_metric_reads_back(m: MetricView)
    requires
        metric_fits(m, wire::RECURSION_LIMIT as nat),
        metric_bytes(m).len() <= u64::MAX,
    ensures
        metric_read(metric_bytes(m)) == Some(m),
        fields::holds_fields_only(
            MessageKind::Metric,
            metric_bytes(m),
            wire::RECURSION_LIMIT as nat,
        ),
{
    lemma_metric(m, wire::RECURSION_LIMIT as nat);
}

/// Reading a template gives back what was written, and what is written holds its
/// fields and nothing else.
pub proof fn law_a_template_reads_back(t: TemplateView)
    requires
        template_fits(t, wire::RECURSION_LIMIT as nat),
        template_bytes(t).len() <= u64::MAX,
    ensures
        template_read(template_bytes(t)) == Some(t),
        fields::holds_fields_only(
            MessageKind::Template,
            template_bytes(t),
            wire::RECURSION_LIMIT as nat,
        ),
{
    lemma_template(t, wire::RECURSION_LIMIT as nat);
}

} // verus!
