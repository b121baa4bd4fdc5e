//! Metric values, message types, roles, and how a message goes onto the
//! wire.

use crate::error::SparkplugError;
use crate::float;
use crate::payload::metric;
use crate::sparkplug::datatype::DataType;
use crate::text;
use std::time::{Duration, SystemTime, SystemTimeError};
use vstd::prelude::*;

verus! {

// ---------------------------------------------------------------------------
// MetricValue
// ---------------------------------------------------------------------------

/// Type-safe metric value for Sparkplug B payloads.
///
/// A floating-point value is held as the bits of its double-precision form.
#[derive(Debug)]
#[non_exhaustive]
pub enum MetricValue {
    /// The bits of a double-precision number.
    Float(u64),
    String(String),
    Bool(bool),
    Int(u64),
}

/// What a metric holds for a metric value.
pub open spec fn proto_value(value: MetricValue) -> metric::ValueView {
    match value {
        MetricValue::Float(v) => metric::ValueView::DoubleValue(v),
        MetricValue::String(v) => metric::ValueView::StringValue(v@),
        MetricValue::Bool(v) => metric::ValueView::BooleanValue(v),
        MetricValue::Int(v) => metric::ValueView::LongValue(v),
    }
}

/// The datatype a metric declares for a metric value.
pub open spec fn proto_datatype(value: MetricValue) -> DataType {
    match value {
        MetricValue::Float(_) => DataType::Double,
        MetricValue::String(_) => DataType::String,
        MetricValue::Bool(_) => DataType::Boolean,
        MetricValue::Int(_) => DataType::UInt64,
    }
}

impl PartialEq for MetricValue {
    fn eq(&self, other: &Self) -> (same: bool) {
        match (self, other) {
            (MetricValue::Float(a), MetricValue::Float(b)) => float::doubles_equal(*a, *b),
            (MetricValue::String(a), MetricValue::String(b)) => {
                text::same_text(a.as_str(), b.as_str())
            },
            (MetricValue::Bool(a), MetricValue::Bool(b)) => *a == *b,
            (MetricValue::Int(a), MetricValue::Int(b)) => *a == *b,
            _ => false,
        }
    }
}

impl vstd::std_specs::cmp::PartialEqSpecImpl for MetricValue {
    open spec fn obeys_eq_spec() -> bool {
        true
    }

    /// Floating-point values are equal as numbers, the others as what they
    /// hold.
    open spec fn eq_spec(&self, other: &Self) -> bool {
        match (*self, *other) {
            (MetricValue::Float(a), MetricValue::Float(b)) => float::same_double(a, b),
            (a, b) => proto_value(a) == proto_value(b),
        }
    }
}

impl Clone for MetricValue {
    fn clone(&self) -> (copy: Self)
        ensures
            proto_value(copy) == proto_value(*self),
            proto_datatype(copy) == proto_datatype(*self),
            match *self {
                MetricValue::Float(v) => copy == MetricValue::Float(v),
                MetricValue::String(v) => copy matches MetricValue::String(held) && held@ == v@,
                MetricValue::Bool(v) => copy == MetricValue::Bool(v),
                MetricValue::Int(v) => copy == MetricValue::Int(v),
            },
    {
        match self {
            MetricValue::Float(v) => MetricValue::Float(*v),
            MetricValue::String(v) => MetricValue::String(v.clone()),
            MetricValue::Bool(v) => MetricValue::Bool(*v),
            MetricValue::Int(v) => MetricValue::Int(*v),
        }
    }
}

impl MetricValue {
    /// Convert to the value a metric holds and the datatype it declares.
    #[must_use]
    pub fn to_proto(&self) -> (proto: (metric::Value, DataType))
        ensures
            proto.0@ == proto_value(*self),
            proto.1 == proto_datatype(*self),
            match *self {
                MetricValue::Float(v) => proto.0 == metric::Value::DoubleValue(metric::Double(v)),
                MetricValue::String(v) => proto.0 matches metric::Value::StringValue(held) && held@
                    == v@,
                MetricValue::Bool(v) => proto.0 == metric::Value::BooleanValue(v),
                MetricValue::Int(v) => proto.0 == metric::Value::LongValue(v),
            },
    {
        match self {
            MetricValue::Float(v) => (
                metric::Value::DoubleValue(metric::Double(*v)),
                DataType::Double,
            ),
            MetricValue::String(v) => (metric::Value::StringValue(v.clone()), DataType::String),
            MetricValue::Bool(v) => (metric::Value::BooleanValue(*v), DataType::Boolean),
            MetricValue::Int(v) => (metric::Value::LongValue(*v), DataType::UInt64),
        }
    }
}

// ---------------------------------------------------------------------------
// Shape / MessageType
// ---------------------------------------------------------------------------

/// Which segment layout a topic uses.
///
/// The message type fixes the shape, so a caller never chooses one. Match on
/// [`crate::SparkplugTopic::shape`] to learn which identity accessors carry
/// a value.
#[derive(Debug, Clone, Copy, PartialEq, Eq, Structural)]
#[non_exhaustive]
pub enum Shape {
    /// `{namespace}/{group}/{type}/{node}`
    Node,
    /// `{namespace}/{group}/{type}/{node}/{device}`
    Device,
    /// `{namespace}/STATE/{host}`
    Host,
}

/// Sparkplug message types.
#[derive(Debug, Clone, Copy, PartialEq, Eq, Structural)]
#[non_exhaustive]
pub enum MessageType {
    /// Node birth.
    NBIRTH,
    /// Node data.
    NDATA,
    /// Node death.
    NDEATH,
    /// Device birth.
    DBIRTH,
    /// Device data.
    DDATA,
    /// Device death.
    DDEATH,
    /// Node command.
    NCMD,
    /// Device command.
    DCMD,
    /// State of a host application.
    STATE,
}

/// How surely a message reaches the broker.
#[derive(Debug, Clone, Copy, PartialEq, Eq, Structural)]
pub enum QoS {
    /// QoS 0. The broker acknowledges nothing.
    AtMostOnce,
    /// QoS 1. The broker acknowledges every message.
    AtLeastOnce,
}

/// The name of a message type in a topic.
pub open spec fn name_of(message_type: MessageType) -> Seq<char> {
    match message_type {
        MessageType::NBIRTH => "NBIRTH"@,
        MessageType::NDATA => "NDATA"@,
        MessageType::NDEATH => "NDEATH"@,
        MessageType::DBIRTH => "DBIRTH"@,
        MessageType::DDATA => "DDATA"@,
        MessageType::DDEATH => "DDEATH"@,
        MessageType::NCMD => "NCMD"@,
        MessageType::DCMD => "DCMD"@,
        MessageType::STATE => "STATE"@,
    }
}

/// The topic shape a message type requires.
pub open spec fn shape_of(message_type: MessageType) -> Shape {
    match message_type {
        MessageType::NBIRTH | MessageType::NDATA | MessageType::NDEATH | MessageType::NCMD => {
            Shape::Node
        },
        MessageType::DBIRTH | MessageType::DDATA | MessageType::DDEATH | MessageType::DCMD => {
            Shape::Device
        },
        MessageType::STATE => Shape::Host,
    }
}

/// The QoS that Sparkplug fixes for a message type.
pub open spec fn fixed_qos(message_type: MessageType) -> QoS {
    match message_type {
        MessageType::NDEATH | MessageType::STATE => QoS::AtLeastOnce,
        _ => QoS::AtMostOnce,
    }
}

impl MessageType {
    /// The name of this message type in a topic.
    #[must_use]
    pub fn as_str(&self) -> (name: &'static str)
        ensures
            name@ == name_of(*self),
    {
        match self {
            MessageType::NBIRTH => "NBIRTH",
            MessageType::NDATA => "NDATA",
            MessageType::NDEATH => "NDEATH",
            MessageType::DBIRTH => "DBIRTH",
            MessageType::DDATA => "DDATA",
            MessageType::DDEATH => "DDEATH",
            MessageType::NCMD => "NCMD",
            MessageType::DCMD => "DCMD",
            MessageType::STATE => "STATE",
        }
    }

    /// Which topic shape this message type requires.
    #[must_use]
    pub fn shape(&self) -> (shape: Shape)
        ensures
            shape == shape_of(*self),
    {
        match self {
            MessageType::NBIRTH | MessageType::NDATA | MessageType::NDEATH | MessageType::NCMD => {
                Shape::Node
            },
            MessageType::DBIRTH | MessageType::DDATA | MessageType::DDEATH | MessageType::DCMD => {
                Shape::Device
            },
            MessageType::STATE => Shape::Host,
        }
    }

    /// The QoS that Sparkplug fixes for this message type.
    ///
    /// This states the protocol. It does not state what a client sends:
    /// one that publishes on behalf of edge nodes it does not own keeps QoS
    /// 1, so its callers can confirm delivery.
    #[must_use]
    pub fn spec_qos(&self) -> (qos: QoS)
        ensures
            qos == fixed_qos(*self),
    {
        match self {
            MessageType::NDEATH | MessageType::STATE => QoS::AtLeastOnce,
            _ => QoS::AtMostOnce,
        }
    }

    /// Whether Sparkplug retains this message type.
    ///
    /// Only STATE is retained, so a host application that connects later
    /// still learns whether the primary host is online.
    #[must_use]
    pub fn spec_retain(&self) -> (retain: bool)
        ensures
            retain == (*self == MessageType::STATE),
    {
        matches!(self, MessageType::STATE)
    }

    /// The message type a topic segment names.
    ///
    /// # Errors
    ///
    /// Returns [`SparkplugError::UnknownMessageType`] with the segment when
    /// it names no message type.
    pub fn from_name(name: &str) -> (message_type: Result<MessageType, SparkplugError>)
        ensures
            match message_type {
                Ok(message_type) => name_of(message_type) == name@,
                Err(error) => {
                    &&& error matches SparkplugError::UnknownMessageType(unknown)
                    &&& unknown@ == name@
                    &&& forall|other: MessageType| name_of(other) != name@
                },
            },
    {
        if text::same_text(name, "NBIRTH") {
            Ok(MessageType::NBIRTH)
        } else if text::same_text(name, "NDATA") {
            Ok(MessageType::NDATA)
        } else if text::same_text(name, "NDEATH") {
            Ok(MessageType::NDEATH)
        } else if text::same_text(name, "DBIRTH") {
            Ok(MessageType::DBIRTH)
        } else if text::same_text(name, "DDATA") {
            Ok(MessageType::DDATA)
        } else if text::same_text(name, "DDEATH") {
            Ok(MessageType::DDEATH)
        } else if text::same_text(name, "NCMD") {
            Ok(MessageType::NCMD)
        } else if text::same_text(name, "DCMD") {
            Ok(MessageType::DCMD)
        } else if text::same_text(name, "STATE") {
            Ok(MessageType::STATE)
        } else {
            Err(SparkplugError::UnknownMessageType(name.to_owned()))
        }
    }
}

impl std::str::FromStr for MessageType {
    type Err = SparkplugError;

    fn from_str(name: &str) -> (parsed: Result<Self, SparkplugError>)
        ensures
            match parsed {
                Ok(message_type) => name_of(message_type) == name@,
                Err(error) => {
                    &&& error matches SparkplugError::UnknownMessageType(unknown)
                    &&& unknown@ == name@
                    &&& forall|other: MessageType| name_of(other) != name@
                },
            },
    {
        MessageType::from_name(name)
    }
}

/// A name belongs to one message type, so a name read back gives the message
/// type it was written from.
pub proof fn law_names_are_distinct(a: MessageType, b: MessageType)
    requires
        name_of(a) == name_of(b),
    ensures
        a == b,
{
    reveal_names();
    assert(name_of(a).len() == name_of(b).len());
    assert(name_of(a)[0] == name_of(b)[0]);
    assert(name_of(a)[1] == name_of(b)[1]);
    assert(name_of(a)[2] == name_of(b)[2]);
}

/// What the names of the message types hold: none has a separator, and none
/// is empty.
pub proof fn lemma_name_is_usable(message_type: MessageType)
    ensures
        crate::sparkplug::topic::ids::is_usable(name_of(message_type)),
{
    reveal_names();
}

proof fn reveal_names()
    ensures
        "NBIRTH"@ == seq!['N', 'B', 'I', 'R', 'T', 'H'],
        "NDATA"@ == seq!['N', 'D', 'A', 'T', 'A'],
        "NDEATH"@ == seq!['N', 'D', 'E', 'A', 'T', 'H'],
        "DBIRTH"@ == seq!['D', 'B', 'I', 'R', 'T', 'H'],
        "DDATA"@ == seq!['D', 'D', 'A', 'T', 'A'],
        "DDEATH"@ == seq!['D', 'D', 'E', 'A', 'T', 'H'],
        "NCMD"@ == seq!['N', 'C', 'M', 'D'],
        "DCMD"@ == seq!['D', 'C', 'M', 'D'],
        "STATE"@ == seq!['S', 'T', 'A', 'T', 'E'],
{
    reveal_strlit("NBIRTH");
    reveal_strlit("NDATA");
    reveal_strlit("NDEATH");
    reveal_strlit("DBIRTH");
    reveal_strlit("DDATA");
    reveal_strlit("DDEATH");
    reveal_strlit("NCMD");
    reveal_strlit("DCMD");
    reveal_strlit("STATE");
    assert("NBIRTH"@ =~= seq!['N', 'B', 'I', 'R', 'T', 'H']);
    assert("NDATA"@ =~= seq!['N', 'D', 'A', 'T', 'A']);
    assert("NDEATH"@ =~= seq!['N', 'D', 'E', 'A', 'T', 'H']);
    assert("DBIRTH"@ =~= seq!['D', 'B', 'I', 'R', 'T', 'H']);
    assert("DDATA"@ =~= seq!['D', 'D', 'A', 'T', 'A']);
    assert("DDEATH"@ =~= seq!['D', 'D', 'E', 'A', 'T', 'H']);
    assert("NCMD"@ =~= seq!['N', 'C', 'M', 'D']);
    assert("DCMD"@ =~= seq!['D', 'C', 'M', 'D']);
    assert("STATE"@ =~= seq!['S', 'T', 'A', 'T', 'E']);
}

// ---------------------------------------------------------------------------
// Role / WireOptions
// ---------------------------------------------------------------------------

/// Which of the two roles this crate offers a client fills.
///
/// The role fixes the QoS and the retain flag every publish uses, and with
/// them whether a flush can confirm a message.
///
/// A role is a closed set of two, so this is deliberately not
/// `#[non_exhaustive]`: a caller that matches on it should keep getting the
/// exhaustiveness check.
#[derive(Debug, Clone, Copy, PartialEq, Eq, Structural)]
pub enum Role {
    /// Publishes on behalf of edge nodes it does not own.
    ///
    /// Every message goes out at QoS 1, so the broker acknowledges it and a
    /// flush can report what was lost. This deviates from the QoS that
    /// Sparkplug fixes on purpose: the identity is borrowed per publish, and
    /// the caller needs delivery confirmed.
    Publisher,
    /// Runs the Sparkplug session for its own configured edge node.
    ///
    /// Every message goes out at the QoS that Sparkplug fixes, which is QoS
    /// 0 for every birth, every data message and every command. The broker
    /// never acknowledges QoS 0, so none of them is counted and a flush has
    /// nothing to confirm.
    EdgeNode,
}

/// How one message goes onto the wire.
///
/// Named fields rather than a tuple. `retain` and `counted` are both `bool`
/// and mean opposite things, so a positional swap would be silent.
#[derive(Debug, Clone, Copy, PartialEq, Eq, Structural)]
pub struct WireOptions {
    /// The QoS this message goes out at.
    pub qos: QoS,
    /// Whether the broker retains it.
    pub retain: bool,
    /// Whether [`crate::DeliveryTracker`] may count it.
    pub counted: bool,
}

/// How a message goes out, from the role and the message type.
pub open spec fn options_of(role: Role, message_type: MessageType) -> WireOptions {
    let qos = match role {
        Role::EdgeNode => fixed_qos(message_type),
        Role::Publisher => QoS::AtLeastOnce,
    };
    WireOptions {
        qos,
        retain: message_type == MessageType::STATE,
        counted: qos == QoS::AtLeastOnce,
    }
}

/// Decide how a message goes out, from the role and the message type.
///
/// This is the one place that answers all three questions. `counted` follows
/// the QoS rather than standing on its own: the tracker clears a count on a
/// PubAck, and only QoS 1 produces one.
pub fn wire_options(role: Role, message_type: MessageType) -> (options: WireOptions)
    ensures
        options == options_of(role, message_type),
{
    let qos = match role {
        Role::EdgeNode => message_type.spec_qos(),
        Role::Publisher => QoS::AtLeastOnce,
    };
    WireOptions {
        qos,
        retain: message_type.spec_retain(),
        counted: matches!(qos, QoS::AtLeastOnce),
    }
}

/// A message is tracked when, and only when, the broker acknowledges it.
pub proof fn law_only_an_acknowledged_message_is_tracked(role: Role, message_type: MessageType)
    ensures
        options_of(role, message_type).counted <==> options_of(role, message_type).qos
            == QoS::AtLeastOnce,
{
}

/// Everything a publisher client sends goes out at QoS 1 and is tracked.
pub proof fn law_a_publisher_client_tracks_every_message(message_type: MessageType)
    ensures
        options_of(Role::Publisher, message_type).qos == QoS::AtLeastOnce,
        options_of(Role::Publisher, message_type).counted,
{
}

/// An edge node client tracks nothing but a node death and a host state.
pub proof fn law_an_edge_node_client_tracks_no_data(message_type: MessageType)
    ensures
        options_of(Role::EdgeNode, message_type).qos == fixed_qos(message_type),
        options_of(Role::EdgeNode, message_type).counted <==> message_type == MessageType::NDEATH
            || message_type == MessageType::STATE,
{
}

/// The role never changes whether a message is retained.
pub proof fn law_the_retain_flag_ignores_the_role(message_type: MessageType)
    ensures
        options_of(Role::Publisher, message_type).retain == options_of(
            Role::EdgeNode,
            message_type,
        ).retain,
        options_of(Role::Publisher, message_type).retain == (message_type == MessageType::STATE),
{
}

// ---------------------------------------------------------------------------
// Timestamp
// ---------------------------------------------------------------------------

/// Declares `std::time::SystemTime`, a reading of the system clock.
#[verifier::external_type_specification]
#[verifier::external_body]
pub struct ExSystemTime(SystemTime);

/// Declares `std::time::SystemTimeError`, which std gives for a reading
/// before the reference point.
#[verifier::external_type_specification]
#[verifier::external_body]
pub struct ExSystemTimeError(SystemTimeError);

/// Calls `SystemTime::now`. The reading depends on the clock, so nothing is
/// stated of it.
#[verifier::external_body]
fn clock() -> SystemTime {
    SystemTime::now()
}

/// How long after the Unix epoch a reading is, or `None` when it is before.
pub uninterp spec fn elapsed_at(reading: SystemTime) -> Option<Duration>;

/// Calls `SystemTime::duration_since` with the Unix epoch and names what it
/// gives.
#[verifier::external_body]
fn since_epoch(reading: &SystemTime) -> (elapsed: Result<Duration, SystemTimeError>)
    ensures
        match elapsed {
            Ok(elapsed) => elapsed_at(*reading) == Some(elapsed),
            Err(_) => elapsed_at(*reading) is None,
        },
{
    reading.duration_since(SystemTime::UNIX_EPOCH)
}

/// How many whole milliseconds a duration holds.
pub uninterp spec fn millis_in(duration: Duration) -> u128;

/// Calls `Duration::as_millis` and names what it gives.
#[verifier::external_body]
fn millis(duration: &Duration) -> (millis: u128)
    ensures
        millis == millis_in(*duration),
{
    duration.as_millis()
}

/// The instant that a count of milliseconds gives, where `None` stands for a
/// clock set before the epoch.
pub open spec fn instant_of(millis: Option<u128>) -> u64 {
    match millis {
        Some(millis) => (millis % 0x1_0000_0000_0000_0000) as u64,
        None => 0,
    }
}

/// The instant that a reading of the system clock gives.
pub open spec fn instant_at(reading: SystemTime) -> u64 {
    instant_of(
        match elapsed_at(reading) {
            Some(elapsed) => Some(millis_in(elapsed)),
            None => None,
        },
    )
}

/// Milliseconds since the Unix epoch.
#[derive(Debug, Clone, Copy, PartialEq, PartialOrd)]
pub struct Timestamp(pub u64);

impl Timestamp {
    /// The instant of a clock reading, in milliseconds since the Unix epoch.
    ///
    /// `None` stands for a clock set before the epoch, which reads as zero.
    /// A count past 64 bits keeps its low 64 bits.
    #[must_use]
    pub fn from_reading(reading: Option<u128>) -> (timestamp: Self)
        ensures
            timestamp.0 == instant_of(reading),
    {
        match reading {
            Some(millis) => Timestamp((millis % 0x1_0000_0000_0000_0000) as u64),
            None => Timestamp(0),
        }
    }

    /// The instant the system clock shows.
    ///
    /// It is the instant of some reading; which one the clock gives is not
    /// stated.
    #[must_use]
    pub fn now() -> (timestamp: Self)
        ensures
            exists|reading: SystemTime| timestamp.0 == #[trigger] instant_at(reading),
    {
        let now = clock();
        let reading = match since_epoch(&now) {
            Ok(elapsed) => Some(millis(&elapsed)),
            Err(_) => None,
        };
        assert(instant_of(reading) == instant_at(now));
        Timestamp::from_reading(reading)
    }
}

// ---------------------------------------------------------------------------
// What each table says
// ---------------------------------------------------------------------------

/// A value survives publishing: every bit of a floating-point number, every
/// character of a text, a flag as it is, and a whole number as it is.
pub proof fn law_a_value_survives(bits: u64, text: String, flag: bool, number: u64)
    ensures
        proto_value(MetricValue::Float(bits)) == metric::ValueView::DoubleValue(bits),
        proto_value(MetricValue::String(text)) == metric::ValueView::StringValue(text@),
        proto_value(MetricValue::Bool(flag)) == metric::ValueView::BooleanValue(flag),
        proto_value(MetricValue::Int(number)) == metric::ValueView::LongValue(number),
{
}

/// Two values that go out alike are one value, up to the text they share.
pub proof fn law_values_stay_apart(a: MetricValue, b: MetricValue)
    requires
        proto_value(a) == proto_value(b),
    ensures
        match (a, b) {
            (MetricValue::Float(a), MetricValue::Float(b)) => a == b,
            (MetricValue::String(a), MetricValue::String(b)) => a@ == b@,
            (MetricValue::Bool(a), MetricValue::Bool(b)) => a == b,
            (MetricValue::Int(a), MetricValue::Int(b)) => a == b,
            _ => false,
        },
{
}

/// A value declares the datatype of what goes out: a double, a text, a flag
/// or a 64-bit number without a sign.
pub proof fn law_a_value_declares_what_goes_out(value: MetricValue)
    ensures
        proto_datatype(value) == DataType::Double <==> proto_value(value) is DoubleValue,
        proto_datatype(value) == DataType::String <==> proto_value(value) is StringValue,
        proto_datatype(value) == DataType::Boolean <==> proto_value(value) is BooleanValue,
        proto_datatype(value) == DataType::UInt64 <==> proto_value(value) is LongValue,
        value is Float <==> proto_datatype(value) == DataType::Double,
        value is String <==> proto_datatype(value) == DataType::String,
        value is Bool <==> proto_datatype(value) == DataType::Boolean,
        value is Int <==> proto_datatype(value) == DataType::UInt64,
{
}

/// Values of one kind are equal when what they hold is, where numbers
/// compare as numbers: the zeros are equal, and a NaN equals nothing. Values
/// of two kinds are never equal.
pub proof fn law_equal_values_hold_equal_things(a: MetricValue, b: MetricValue)
    ensures
        vstd::std_specs::cmp::PartialEqSpec::eq_spec(&a, &b) <==> match (a, b) {
            (MetricValue::Float(a), MetricValue::Float(b)) => float::same_double(a, b),
            (MetricValue::String(a), MetricValue::String(b)) => a@ == b@,
            (MetricValue::Bool(a), MetricValue::Bool(b)) => a == b,
            (MetricValue::Int(a), MetricValue::Int(b)) => a == b,
            _ => false,
        },
{
}

/// The name of a message type says what it is: its first letter whose it is,
/// and the rest what it does.
pub proof fn law_a_name_is_spelt_as_sparkplug_spells_it()
    ensures
        name_of(MessageType::NBIRTH) == seq!['N', 'B', 'I', 'R', 'T', 'H'],
        name_of(MessageType::NDATA) == seq!['N', 'D', 'A', 'T', 'A'],
        name_of(MessageType::NDEATH) == seq!['N', 'D', 'E', 'A', 'T', 'H'],
        name_of(MessageType::NCMD) == seq!['N', 'C', 'M', 'D'],
        name_of(MessageType::DBIRTH) == seq!['D', 'B', 'I', 'R', 'T', 'H'],
        name_of(MessageType::DDATA) == seq!['D', 'D', 'A', 'T', 'A'],
        name_of(MessageType::DDEATH) == seq!['D', 'D', 'E', 'A', 'T', 'H'],
        name_of(MessageType::DCMD) == seq!['D', 'C', 'M', 'D'],
        name_of(MessageType::STATE) == seq!['S', 'T', 'A', 'T', 'E'],
{
    reveal_names();
}

/// A node topic carries the message types named with an N, a device topic
/// those named with a D, and a host topic the one named with an S.
pub proof fn law_the_first_letter_decides_the_shape(message_type: MessageType)
    ensures
        name_of(message_type).len() >= 4,
        shape_of(message_type) == Shape::Node <==> name_of(message_type)[0] == 'N',
        shape_of(message_type) == Shape::Device <==> name_of(message_type)[0] == 'D',
        shape_of(message_type) == Shape::Host <==> name_of(message_type)[0] == 'S',
        shape_of(message_type) == Shape::Host <==> message_type == MessageType::STATE,
{
    reveal_names();
}

/// Sparkplug fixes QoS 1 for a node death and a host state, and QoS 0 for
/// everything else.
pub proof fn law_only_deaths_of_nodes_and_states_are_acknowledged(message_type: MessageType)
    ensures
        fixed_qos(message_type) == QoS::AtLeastOnce <==> message_type == MessageType::NDEATH
            || message_type == MessageType::STATE,
        fixed_qos(message_type) == QoS::AtMostOnce <==> message_type != MessageType::NDEATH
            && message_type != MessageType::STATE,
{
}

/// How a message goes out, question by question.
pub proof fn law_the_role_and_the_type_decide_how_a_message_goes_out(
    role: Role,
    message_type: MessageType,
)
    ensures
        options_of(role, message_type).qos == QoS::AtLeastOnce <==> role == Role::Publisher
            || message_type == MessageType::NDEATH || message_type == MessageType::STATE,
        options_of(role, message_type).counted <==> role == Role::Publisher || message_type
            == MessageType::NDEATH || message_type == MessageType::STATE,
        options_of(role, message_type).retain <==> message_type == MessageType::STATE,
{
}

/// An instant is the number of milliseconds since the epoch, as long as that
/// fits 64 bits. A clock set before the epoch reads as zero.
pub proof fn law_an_instant_counts_milliseconds(millis: u128, reading: SystemTime)
    ensures
        millis <= u64::MAX ==> instant_of(Some(millis)) == millis,
        (instant_of(Some(millis)) - millis) % 0x1_0000_0000_0000_0000 == 0,
        instant_of(None) == 0,
        elapsed_at(reading) matches Some(elapsed) ==> (millis_in(elapsed) <= u64::MAX
            ==> instant_at(reading) == millis_in(elapsed)),
        elapsed_at(reading) is None ==> instant_at(reading) == 0,
{
    assert((millis % 0x1_0000_0000_0000_0000 - millis) % 0x1_0000_0000_0000_0000 == 0);
}

} // verus!
