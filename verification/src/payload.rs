//! The Sparkplug payload, and its bytes.

pub mod codec;
pub mod equality;
pub mod fields;
pub mod layout;
pub mod metric;
pub mod nested;
pub mod reading;
pub mod round_trip;

use crate::payload::metric::Value;
use crate::payload::nested::{MetaData, MetaDataView, PropertySet, PropertySetView};
use crate::text;
use vstd::prelude::*;

verus! {

/// One named value, with the instant it was read at.
#[derive(Debug)]
pub struct Metric {
    pub name: Option<String>,
    pub alias: Option<u64>,
    /// Milliseconds since the Unix epoch.
    pub timestamp: Option<u64>,
    /// The code of a [`crate::DataType`].
    pub datatype: Option<u32>,
    pub is_historical: Option<bool>,
    pub is_transient: Option<bool>,
    pub is_null: Option<bool>,
    pub metadata: Option<MetaData>,
    pub properties: Option<PropertySet>,
    pub value: Option<Value>,
}

/// What one Sparkplug message carries.
#[derive(Debug)]
pub struct Payload {
    /// Milliseconds since the Unix epoch.
    pub timestamp: Option<u64>,
    pub metrics: Vec<Metric>,
    pub seq: Option<u64>,
    pub uuid: Option<String>,
    pub body: Option<Vec<u8>>,
}

/// What a [`Metric`] holds.
#[verifier::ext_equal]
pub struct MetricView {
    pub name: Option<Seq<char>>,
    pub alias: Option<u64>,
    pub timestamp: Option<u64>,
    pub datatype: Option<u32>,
    pub is_historical: Option<bool>,
    pub is_transient: Option<bool>,
    pub is_null: Option<bool>,
    pub metadata: Option<MetaDataView>,
    pub properties: Option<PropertySetView>,
    pub value: Option<metric::ValueView>,
}

/// What a [`Payload`] holds.
#[verifier::ext_equal]
pub struct PayloadView {
    pub timestamp: Option<u64>,
    pub metrics: Seq<MetricView>,
    pub seq: Option<u64>,
    pub uuid: Option<Seq<char>>,
    pub body: Option<Seq<u8>>,
}

/// The view inside an option.
pub open spec fn view_of<T: View>(held: Option<T>) -> Option<T::V> {
    match held {
        Some(v) => Some(v@),
        None => None,
    }
}

/// What a metric holds.
pub open spec fn metric_view(m: Metric) -> MetricView
    decreases m,
{
    MetricView {
        name: view_of(m.name),
        alias: m.alias,
        timestamp: m.timestamp,
        datatype: m.datatype,
        is_historical: m.is_historical,
        is_transient: m.is_transient,
        is_null: m.is_null,
        metadata: view_of(m.metadata),
        properties: view_of(m.properties),
        value: match m.value {
            Some(value) => Some(metric::value_view(value)),
            None => None,
        },
    }
}

impl View for Metric {
    type V = MetricView;

    open spec fn view(&self) -> MetricView {
        metric_view(*self)
    }
}

/// The views of a list of metrics.
pub open spec fn metric_views(metrics: Seq<Metric>) -> Seq<MetricView> {
    metrics.map_values(|m: Metric| m@)
}

impl View for Payload {
    type V = PayloadView;

    open spec fn view(&self) -> PayloadView {
        PayloadView {
            timestamp: self.timestamp,
            metrics: metric_views(self.metrics@),
            seq: self.seq,
            uuid: view_of(self.uuid),
            body: view_of(self.body),
        }
    }
}

/// Copy bytes that may be missing.
pub(crate) fn copy_held(held: &Option<Vec<u8>>) -> (copy: Option<Vec<u8>>)
    ensures
        view_of(copy) == view_of(*held),
{
    match held {
        Some(bytes) => Some(metric::copy_bytes(bytes)),
        None => None,
    }
}

/// Copy a text that may be missing.
pub(crate) fn copy_text(held: &Option<String>) -> (copy: Option<String>)
    ensures
        view_of(copy) == view_of(*held),
{
    match held {
        Some(text) => Some(text.clone()),
        None => None,
    }
}

/// Copy a metric.
pub(crate) fn copy_metric(metric: &Metric) -> (copy: Metric)
    ensures
        copy@ == metric@,
    decreases metric,
{
    let metadata = match &metric.metadata {
        Some(metadata) => Some(metadata.clone()),
        None => None,
    };
    let properties = match &metric.properties {
        Some(properties) => Some(properties.clone()),
        None => None,
    };
    let value = match &metric.value {
        Some(value) => Some(metric::copy_value(value)),
        None => None,
    };
    Metric {
        name: copy_text(&metric.name),
        alias: metric.alias,
        timestamp: metric.timestamp,
        datatype: metric.datatype,
        is_historical: metric.is_historical,
        is_transient: metric.is_transient,
        is_null: metric.is_null,
        metadata,
        properties,
        value,
    }
}

impl Clone for Metric {
    fn clone(&self) -> (copy: Self)
        ensures
            copy@ == self@,
    {
        copy_metric(self)
    }
}

impl Clone for Payload {
    fn clone(&self) -> (copy: Self)
        ensures
            copy@ == self@,
    {
        let mut metrics: Vec<Metric> = Vec::new();
        let mut i: usize = 0;
        while i < self.metrics.len()
            invariant
                i <= self.metrics.len(),
                metric_views(metrics@) == metric_views(self.metrics@).take(i as int),
            decreases self.metrics.len() - i,
        {
            let ghost before = metrics@;
            metrics.push(self.metrics[i].clone());
            assert(metric_views(metrics@) =~= metric_views(before).push(self.metrics@[i as int]@));
            assert(metric_views(self.metrics@).take(i + 1) =~= metric_views(self.metrics@).take(
                i as int,
            ).push(self.metrics@[i as int]@));
            i += 1;
        }
        assert(metric_views(metrics@) =~= metric_views(self.metrics@));
        Payload {
            timestamp: self.timestamp,
            metrics,
            seq: self.seq,
            uuid: copy_text(&self.uuid),
            body: copy_held(&self.body),
        }
    }
}

/// A metric that holds nothing.
pub open spec fn no_metric() -> MetricView {
    MetricView {
        name: None,
        alias: None,
        timestamp: None,
        datatype: None,
        is_historical: None,
        is_transient: None,
        is_null: None,
        metadata: None,
        properties: None,
        value: None,
    }
}

/// A payload that holds nothing.
pub open spec fn no_payload() -> PayloadView {
    PayloadView { timestamp: None, metrics: seq![], seq: None, uuid: None, body: None }
}

impl Default for Metric {
    fn default() -> (metric: Metric)
        ensures
            metric@ == no_metric(),
    {
        Metric {
            name: None,
            alias: None,
            timestamp: None,
            datatype: None,
            is_historical: None,
            is_transient: None,
            is_null: None,
            metadata: None,
            properties: None,
            value: None,
        }
    }
}

impl Default for Payload {
    fn default() -> (payload: Payload)
        ensures
            payload@ == no_payload(),
    {
        Payload { timestamp: None, metrics: Vec::new(), seq: None, uuid: None, body: None }
    }
}

/// A value that can be plotted, before it is turned into a floating-point
/// number.
#[derive(Debug, Clone, Copy, PartialEq, Eq)]
pub enum Number {
    /// A whole number.
    Whole(u64),
    /// The bits of a single-precision number.
    Single(u32),
    /// The bits of a double-precision number.
    Double(u64),
}

/// A value as it is shown to a reader.
///
/// A floating-point value is handed back as its bits, for the caller to
/// write in the notation it prefers.
#[derive(Debug, PartialEq, Eq)]
pub enum FormattedValue {
    Text(String),
    /// The bits of a single-precision number.
    Single(u32),
    /// The bits of a double-precision number.
    Double(u64),
}

/// The number a value stands for, or `None` for a value that is no number.
pub open spec fn number_of(value: Option<metric::ValueView>) -> Option<Number> {
    match value {
        Some(metric::ValueView::IntValue(v)) => Some(Number::Whole(v as u64)),
        Some(metric::ValueView::LongValue(v)) => Some(Number::Whole(v)),
        Some(metric::ValueView::FloatValue(v)) => Some(Number::Single(v)),
        Some(metric::ValueView::DoubleValue(v)) => Some(Number::Double(v)),
        Some(metric::ValueView::BooleanValue(v)) => Some(Number::Whole(if v { 1 } else { 0 })),
        _ => None,
    }
}

/// The text of a value that is no floating-point number.
pub open spec fn value_text(value: Option<metric::ValueView>) -> Seq<char> {
    match value {
        Some(metric::ValueView::IntValue(v)) => text::decimal(v as nat),
        Some(metric::ValueView::LongValue(v)) => text::decimal(v as nat),
        Some(metric::ValueView::BooleanValue(v)) => if v {
            "true"@
        } else {
            "false"@
        },
        Some(metric::ValueView::StringValue(v)) => "\""@ + v + "\""@,
        Some(metric::ValueView::BytesValue(v)) => text::byte_list(v),
        Some(_) => "Unknown value type"@,
        None => "No value"@,
    }
}

impl Metric {
    /// The number this metric holds, for plotting.
    ///
    /// A flag reads as one or zero. A metric that holds text, bytes, a
    /// nested message or nothing has no number.
    #[must_use]
    pub fn numeric_value(&self) -> (number: Option<Number>)
        ensures
            number == number_of(self@.value),
    {
        match &self.value {
            Some(Value::IntValue(v)) => Some(Number::Whole(*v as u64)),
            Some(Value::LongValue(v)) => Some(Number::Whole(*v)),
            Some(Value::FloatValue(v)) => Some(Number::Single(v.0)),
            Some(Value::DoubleValue(v)) => Some(Number::Double(v.0)),
            Some(Value::BooleanValue(v)) => Some(Number::Whole(if *v { 1 } else { 0 })),
            _ => None,
        }
    }

    /// The value of this metric as it is shown to a reader.
    #[must_use]
    pub fn format_value(&self) -> (shown: FormattedValue)
        ensures
            match self@.value {
                Some(metric::ValueView::FloatValue(v)) => shown == FormattedValue::Single(v),
                Some(metric::ValueView::DoubleValue(v)) => shown == FormattedValue::Double(v),
                value => shown matches FormattedValue::Text(text) && text@ == value_text(value),
            },
    {
        match &self.value {
            Some(Value::IntValue(v)) => FormattedValue::Text(text::decimal_text(*v as u64)),
            Some(Value::LongValue(v)) => FormattedValue::Text(text::decimal_text(*v)),
            Some(Value::FloatValue(v)) => FormattedValue::Single(v.0),
            Some(Value::DoubleValue(v)) => FormattedValue::Double(v.0),
            Some(Value::BooleanValue(v)) => {
                FormattedValue::Text(if *v { "true".to_owned() } else { "false".to_owned() })
            },
            Some(Value::StringValue(v)) => {
                let mut quoted = "\"".to_owned();
                quoted.append(v.as_str());
                quoted.append("\"");
                FormattedValue::Text(quoted)
            },
            Some(Value::BytesValue(v)) => FormattedValue::Text(text::byte_list_text(v)),
            Some(_) => FormattedValue::Text("Unknown value type".to_owned()),
            None => FormattedValue::Text("No value".to_owned()),
        }
    }
}

/// Read a payload from the bytes of a message.
///
/// # Errors
///
/// Fails when the bytes are not a payload the Sparkplug schema accepts. The
/// error names the message and the field where they are not.
pub fn decode_payload(bytes: &[u8]) -> (payload: Result<Payload, prost::DecodeError>)
    ensures
        match payload {
            Ok(payload) => codec::decoded(bytes@) == Some(payload@),
            Err(error) => {
                &&& codec::decoded(bytes@) is None
                &&& crate::wire::error_fault(error) == codec::fault(bytes@)
            },
        },
{
    codec::decode(bytes)
}

impl Payload {
    /// Write this payload as the bytes of a message.
    pub fn encode_to_vec(&self) -> (bytes: Vec<u8>)
        ensures
            bytes@ == codec::payload_bytes(self@),
    {
        codec::encode(self)
    }
}

// ---------------------------------------------------------------------------
// What values and messages show
// ---------------------------------------------------------------------------

/// The number of a metric is the one it holds: a whole number as it is, a
/// floating-point number by its bits, and a flag as one or zero. Nothing else
/// has a number.
pub proof fn law_a_number_is_what_the_metric_holds(value: Option<metric::ValueView>)
    ensures
        value matches Some(metric::ValueView::IntValue(v)) ==> number_of(value) == Some(
            Number::Whole(v as u64),
        ),
        value matches Some(metric::ValueView::LongValue(v)) ==> number_of(value) == Some(
            Number::Whole(v),
        ),
        value matches Some(metric::ValueView::FloatValue(v)) ==> number_of(value) == Some(
            Number::Single(v),
        ),
        value matches Some(metric::ValueView::DoubleValue(v)) ==> number_of(value) == Some(
            Number::Double(v),
        ),
        value == Some(metric::ValueView::BooleanValue(true)) ==> number_of(value) == Some(
            Number::Whole(1),
        ),
        value == Some(metric::ValueView::BooleanValue(false)) ==> number_of(value) == Some(
            Number::Whole(0),
        ),
        value is None ==> number_of(value) is None,
        value matches Some(metric::ValueView::StringValue(_)) ==> number_of(value) is None,
        value matches Some(metric::ValueView::BytesValue(_)) ==> number_of(value) is None,
        value matches Some(metric::ValueView::DatasetValue(_)) ==> number_of(value) is None,
        value matches Some(metric::ValueView::TemplateValue(_)) ==> number_of(value) is None,
        value matches Some(metric::ValueView::ExtensionValue) ==> number_of(value) is None,
{
}

/// The text of a value says what the value is: a whole number in digits that
/// spell it, a flag by its name, a text between quotes, and bytes as a list.
/// What has no text of its own, and what is not there, is told apart.
pub proof fn law_a_text_says_what_the_value_is(value: Option<metric::ValueView>)
    ensures
        value matches Some(metric::ValueView::IntValue(v)) ==> text::spelt_number(
            value_text(value),
            10,
        ) == v && value_text(value) == text::decimal(v as nat),
        value matches Some(metric::ValueView::LongValue(v)) ==> text::spelt_number(
            value_text(value),
            10,
        ) == v && value_text(value) == text::decimal(v as nat),
        value == Some(metric::ValueView::BooleanValue(true)) ==> value_text(value) == "true"@,
        value == Some(metric::ValueView::BooleanValue(false)) ==> value_text(value) == "false"@,
        value matches Some(metric::ValueView::StringValue(v)) ==> value_text(value) == seq!['"']
            + v + seq!['"'],
        value matches Some(metric::ValueView::BytesValue(v)) ==> value_text(value)
            == text::byte_list(v),
        value matches Some(metric::ValueView::DatasetValue(_)) ==> value_text(value)
            == "Unknown value type"@,
        value matches Some(metric::ValueView::TemplateValue(_)) ==> value_text(value)
            == "Unknown value type"@,
        value matches Some(metric::ValueView::ExtensionValue) ==> value_text(value)
            == "Unknown value type"@,
        value is None ==> value_text(value) == "No value"@,
{
    reveal_strlit("\"");
    assert("\""@ =~= seq!['"']);
    if let Some(metric::ValueView::IntValue(v)) = value {
        text::law_decimal_digits_spell_the_number(v as nat);
    }
    if let Some(metric::ValueView::LongValue(v)) = value {
        text::law_decimal_digits_spell_the_number(v as nat);
    }
}

/// What a metric holds is what its fields hold, each under its own name.
pub proof fn law_a_metric_shows_its_fields(m: Metric)
    ensures
        m.name matches Some(name) ==> m@.name == Some(name@),
        m.name is None ==> m@.name is None,
        m@.alias == m.alias,
        m@.timestamp == m.timestamp,
        m@.datatype == m.datatype,
        m@.is_historical == m.is_historical,
        m@.is_transient == m.is_transient,
        m@.is_null == m.is_null,
        m.metadata matches Some(metadata) ==> m@.metadata == Some(metadata@),
        m.metadata is None ==> m@.metadata is None,
        m.properties matches Some(properties) ==> m@.properties == Some(properties@),
        m.properties is None ==> m@.properties is None,
        m.value matches Some(value) ==> m@.value == Some(value@),
        m.value is None ==> m@.value is None,
{
}

/// What a payload holds is what its fields hold, its metrics in order.
pub proof fn law_a_payload_shows_its_fields(p: Payload)
    ensures
        p@.timestamp == p.timestamp,
        p@.metrics.len() == p.metrics@.len(),
        forall|i: int| 0 <= i < p.metrics@.len() ==> #[trigger] p@.metrics[i] == p.metrics@[i]@,
        p@.seq == p.seq,
        p.uuid matches Some(uuid) ==> p@.uuid == Some(uuid@),
        p.uuid is None ==> p@.uuid is None,
        p.body matches Some(body) ==> p@.body == Some(body@),
        p.body is None ==> p@.body is None,
{
}

/// A message that holds nothing holds nothing in any field.
pub proof fn law_nothing_is_held_at_first()
    ensures
        no_metric().name is None,
        no_metric().alias is None,
        no_metric().timestamp is None,
        no_metric().datatype is None,
        no_metric().is_historical is None,
        no_metric().is_transient is None,
        no_metric().is_null is None,
        no_metric().metadata is None,
        no_metric().properties is None,
        no_metric().value is None,
        no_payload().timestamp is None,
        no_payload().metrics.len() == 0,
        no_payload().seq is None,
        no_payload().uuid is None,
        no_payload().body is None,
{
}

} // verus!
