//! Every way an operation of this crate can fail.

use crate::sparkplug::types::MessageType;
use crate::text;
use crate::wire;
use std::time::Duration;
use vstd::prelude::*;

verus! {

/// Declares `rumqttc::ClientError`, which an MQTT client reports when it
/// refuses a request.
#[verifier::external_type_specification]
#[verifier::external_body]
pub struct ExClientError(rumqttc::ClientError);

/// Declares `prost::EncodeError`.
#[verifier::external_type_specification]
#[verifier::external_body]
pub struct ExEncodeError(prost::EncodeError);

/// Errors that can occur when using this crate.
#[non_exhaustive]
#[derive(Debug)]
pub enum SparkplugError {
    /// MQTT connection failed (bad URL, auth rejected, etc.)
    Connection(String),
    /// Timed out waiting for initial MQTT connection.
    ConnectionTimeout(Duration),
    /// MQTT publish operation failed (connection lost, queue full, etc.)
    Publish(rumqttc::ClientError),
    /// Failed to encode a Sparkplug B payload.
    Encode(prost::EncodeError),
    /// Failed to decode a Sparkplug B payload.
    Decode(prost::DecodeError),
    /// Topic string does not match the Sparkplug B format
    /// `spBv1.0/<group>/<message_type>/<node>[/<device>]`.
    InvalidTopic(String),
    /// The message type segment of a topic is not a known Sparkplug B type.
    UnknownMessageType(String),
    /// A namespace that cannot stand as a topic segment.
    InvalidNamespace(String),
    /// A well-formed topic that its publisher addressed with the wrong
    /// shape for its message type.
    WrongTopicShape { topic: String, message_type: MessageType },
    /// The client connected as a publisher, so it owns no edge node to
    /// announce.
    NotAnEdgeNode,
    /// A disconnect discarded publishes the broker never acknowledged.
    ///
    /// Sparkplug requires a clean session, so the broker keeps no session
    /// state and the client cannot resend them. The caller must decide
    /// whether to publish them again.
    PublishLost { count: u32 },
    /// The client refused the DISCONNECT request that a shutdown sent.
    ///
    /// The event loop is already gone, so it cannot write the packet. Every
    /// publish still reached the broker, because a shutdown flushes first.
    Disconnect(rumqttc::ClientError),
    /// A shutdown could not confirm that the DISCONNECT packet went out.
    ///
    /// Every publish reached the broker, so nothing is lost. Expect this
    /// when the broker is already unreachable.
    ShutdownTimeout { after: Duration },
    /// A flush gave up waiting for the broker to acknowledge.
    FlushTimeout { after: Duration, unacked: u32 },
}

/// What an error says, where `detail` is the text of the outside value it
/// carries. An error that carries none says the same whatever `detail` is.
pub open spec fn message_of(error: SparkplugError, detail: Seq<char>) -> Seq<char> {
    match error {
        SparkplugError::Connection(reason) => "connection failed: "@ + reason@,
        SparkplugError::ConnectionTimeout(_) => "connection timed out after "@ + detail,
        SparkplugError::Publish(_) => "publish failed: "@ + detail,
        SparkplugError::Encode(_) => "payload encode failed: "@ + detail,
        SparkplugError::Decode(_) => "payload decode failed: "@ + detail,
        SparkplugError::InvalidTopic(topic) => "invalid topic format: "@ + topic@,
        SparkplugError::UnknownMessageType(name) => "unknown message type: "@ + name@,
        SparkplugError::InvalidNamespace(version) => "invalid namespace: "@ + version@,
        SparkplugError::WrongTopicShape { topic, message_type } => "topic "@ + topic@
            + " has the wrong shape for "@ + crate::sparkplug::types::name_of(message_type),
        SparkplugError::NotAnEdgeNode => "this client connected as a publisher and owns no edge node"@,
        SparkplugError::PublishLost { count } => text::decimal(count as nat)
            + " publish(es) were discarded when the MQTT connection dropped"@,
        SparkplugError::Disconnect(_) => "disconnect request failed: "@ + detail,
        SparkplugError::ShutdownTimeout { after: _ } =>
            "shutdown could not confirm the DISCONNECT packet within "@ + detail,
        SparkplugError::FlushTimeout { after: _, unacked } => "flush timed out after "@ + detail
            + " with "@ + text::decimal(unacked as nat) + " publish(es) unacknowledged"@,
    }
}

/// The text that std's `Debug` writes for a duration.
pub uninterp spec fn duration_text(duration: Duration) -> Seq<char>;

/// Calls std's `Debug` on a duration and names the text it writes.
#[verifier::external_body]
fn show_duration(duration: &Duration) -> (text: String)
    ensures
        text@ == duration_text(*duration),
{
    format!("{duration:?}")
}

/// Calls `Display` on a `rumqttc::ClientError`, which writes one fixed text.
#[verifier::external_body]
fn show_client_error(error: &rumqttc::ClientError) -> (text: String)
    ensures
        text@ == "Failed to send mqtt requests to eventloop"@,
{
    error.to_string()
}

/// What `EncodeError::required_capacity` gives.
pub uninterp spec fn capacity_required(error: prost::EncodeError) -> usize;

/// What `EncodeError::remaining` gives.
pub uninterp spec fn capacity_remaining(error: prost::EncodeError) -> usize;

/// The text of a `prost::EncodeError`.
pub open spec fn encode_error_text(error: prost::EncodeError) -> Seq<char> {
    "failed to encode Protobuf message; insufficient buffer capacity (required: "@
        + text::decimal(capacity_required(error) as nat) + ", remaining: "@ + text::decimal(
        capacity_remaining(error) as nat,
    ) + ")"@
}

/// Calls `Display` on a `prost::EncodeError`, which writes a fixed text
/// around the two capacities the error holds.
#[verifier::external_body]
fn show_encode_error(error: &prost::EncodeError) -> (text: String)
    ensures
        text@ == "failed to encode Protobuf message; insufficient buffer capacity (required: "@
            + text::decimal(capacity_required(*error) as nat) + ", remaining: "@ + text::decimal(
            capacity_remaining(*error) as nat,
        ) + ")"@,
{
    error.to_string()
}

/// A location as text: each message and field in turn.
pub open spec fn trail_text(trail: wire::Trail) -> Seq<char>
    decreases trail.len(),
{
    if trail.len() == 0 {
        seq![]
    } else {
        trail_text(trail.drop_last()) + trail.last().0 + "."@ + trail.last().1 + ": "@
    }
}

/// The text of a `prost::DecodeError`: its location, and its description.
pub open spec fn decode_error_text(error: prost::DecodeError) -> Seq<char> {
    "failed to decode Protobuf message: "@ + trail_text(wire::error_trail(error))
        + wire::error_reason(error)
}

/// Calls `Display` on a `prost::DecodeError`, which writes a fixed text, the
/// location and the description.
#[verifier::external_body]
fn show_decode_error(error: &prost::DecodeError) -> (text: String)
    ensures
        text@ == decode_error_text(*error),
{
    error.to_string()
}

/// The text of the outside value that an error carries, or none.
pub open spec fn detail_of(error: SparkplugError) -> Seq<char> {
    match error {
        SparkplugError::ConnectionTimeout(after) => duration_text(after),
        SparkplugError::Publish(_) => "Failed to send mqtt requests to eventloop"@,
        SparkplugError::Encode(error) => encode_error_text(error),
        SparkplugError::Decode(error) => decode_error_text(error),
        SparkplugError::Disconnect(_) => "Failed to send mqtt requests to eventloop"@,
        SparkplugError::ShutdownTimeout { after } => duration_text(after),
        SparkplugError::FlushTimeout { after, unacked: _ } => duration_text(after),
        _ => Seq::empty(),
    }
}

/// Two texts, one after the other.
fn joined(first: &str, second: &str) -> (text: String)
    ensures
        text@ == first@ + second@,
{
    let mut text = first.to_owned();
    text.append(second);
    text
}

impl SparkplugError {
    /// What this error says, given the text of the outside value it carries.
    pub fn message_with(&self, detail: &str) -> (message: String)
        ensures
            message@ == message_of(*self, detail@),
    {
        match self {
            SparkplugError::Connection(reason) => joined("connection failed: ", reason.as_str()),
            SparkplugError::ConnectionTimeout(_) => joined("connection timed out after ", detail),
            SparkplugError::Publish(_) => joined("publish failed: ", detail),
            SparkplugError::Encode(_) => joined("payload encode failed: ", detail),
            SparkplugError::Decode(_) => joined("payload decode failed: ", detail),
            SparkplugError::InvalidTopic(topic) => joined("invalid topic format: ", topic.as_str()),
            SparkplugError::UnknownMessageType(name) => {
                joined("unknown message type: ", name.as_str())
            },
            SparkplugError::InvalidNamespace(version) => {
                joined("invalid namespace: ", version.as_str())
            },
            SparkplugError::WrongTopicShape { topic, message_type } => {
                let mut message = joined("topic ", topic.as_str());
                message.append(" has the wrong shape for ");
                message.append(message_type.as_str());
                message
            },
            SparkplugError::NotAnEdgeNode => {
                "this client connected as a publisher and owns no edge node".to_owned()
            },
            SparkplugError::PublishLost { count } => joined(
                text::decimal_text(*count as u64).as_str(),
                " publish(es) were discarded when the MQTT connection dropped",
            ),
            SparkplugError::Disconnect(_) => joined("disconnect request failed: ", detail),
            SparkplugError::ShutdownTimeout { after: _ } => {
                joined("shutdown could not confirm the DISCONNECT packet within ", detail)
            },
            SparkplugError::FlushTimeout { after: _, unacked } => {
                let mut message = joined("flush timed out after ", detail);
                message.append(" with ");
                message.append(text::decimal_text(*unacked as u64).as_str());
                message.append(" publish(es) unacknowledged");
                message
            },
        }
    }

    /// What this error says.
    ///
    /// The text of an outside value, such as a duration or the error of the
    /// MQTT client, is that value's own.
    pub fn message(&self) -> (message: String)
        ensures
            message@ == message_of(*self, detail_of(*self)),
    {
        let detail = match self {
            SparkplugError::ConnectionTimeout(after) => show_duration(after),
            SparkplugError::Publish(error) => show_client_error(error),
            SparkplugError::Encode(error) => show_encode_error(error),
            SparkplugError::Decode(error) => show_decode_error(error),
            SparkplugError::Disconnect(error) => show_client_error(error),
            SparkplugError::ShutdownTimeout { after } => show_duration(after),
            SparkplugError::FlushTimeout { after, unacked: _ } => show_duration(after),
            _ => String::new(),
        };
        self.message_with(detail.as_str())
    }
}

impl From<rumqttc::ClientError> for SparkplugError {
    fn from(error: rumqttc::ClientError) -> (converted: Self) {
        SparkplugError::Publish(error)
    }
}

impl vstd::std_specs::convert::FromSpecImpl<rumqttc::ClientError> for SparkplugError {
    open spec fn obeys_from_spec() -> bool {
        true
    }

    open spec fn from_spec(error: rumqttc::ClientError) -> Self {
        SparkplugError::Publish(error)
    }
}

impl From<prost::EncodeError> for SparkplugError {
    fn from(error: prost::EncodeError) -> (converted: Self) {
        SparkplugError::Encode(error)
    }
}

impl vstd::std_specs::convert::FromSpecImpl<prost::EncodeError> for SparkplugError {
    open spec fn obeys_from_spec() -> bool {
        true
    }

    open spec fn from_spec(error: prost::EncodeError) -> Self {
        SparkplugError::Encode(error)
    }
}

impl From<prost::DecodeError> for SparkplugError {
    fn from(error: prost::DecodeError) -> (converted: Self) {
        SparkplugError::Decode(error)
    }
}

impl vstd::std_specs::convert::FromSpecImpl<prost::DecodeError> for SparkplugError {
    open spec fn obeys_from_spec() -> bool {
        true
    }

    open spec fn from_spec(error: prost::DecodeError) -> Self {
        SparkplugError::Decode(error)
    }
}

/// What each error says: what went wrong in words, and then what it carries,
/// whole.
pub proof fn law_an_error_says_what_it_carries(
    text: String,
    after: Duration,
    refused: rumqttc::ClientError,
    encode: prost::EncodeError,
    decode: prost::DecodeError,
    message_type: MessageType,
    count: u32,
    detail: Seq<char>,
)
    ensures
        message_of(SparkplugError::Connection(text), detail) == "connection failed: "@ + text@,
        message_of(SparkplugError::ConnectionTimeout(after), detail)
            == "connection timed out after "@ + detail,
        message_of(SparkplugError::Publish(refused), detail) == "publish failed: "@ + detail,
        message_of(SparkplugError::Encode(encode), detail) == "payload encode failed: "@ + detail,
        message_of(SparkplugError::Decode(decode), detail) == "payload decode failed: "@ + detail,
        message_of(SparkplugError::InvalidTopic(text), detail) == "invalid topic format: "@ + text@,
        message_of(SparkplugError::UnknownMessageType(text), detail) == "unknown message type: "@
            + text@,
        message_of(SparkplugError::InvalidNamespace(text), detail) == "invalid namespace: "@
            + text@,
        message_of(SparkplugError::WrongTopicShape { topic: text, message_type }, detail)
            == "topic "@ + text@ + " has the wrong shape for "@
            + crate::sparkplug::types::name_of(message_type),
        message_of(SparkplugError::NotAnEdgeNode, detail)
            == "this client connected as a publisher and owns no edge node"@,
        message_of(SparkplugError::PublishLost { count }, detail) == text::decimal(count as nat)
            + " publish(es) were discarded when the MQTT connection dropped"@,
        message_of(SparkplugError::Disconnect(refused), detail) == "disconnect request failed: "@
            + detail,
        message_of(SparkplugError::ShutdownTimeout { after }, detail)
            == "shutdown could not confirm the DISCONNECT packet within "@ + detail,
        message_of(SparkplugError::FlushTimeout { after, unacked: count }, detail)
            == "flush timed out after "@ + detail + " with "@ + text::decimal(count as nat)
            + " publish(es) unacknowledged"@,
{
}

/// The detail of an error is the text of the value it carries from outside:
/// how long a wait was, or what the other crate says of its own error.
pub proof fn law_a_detail_is_the_text_of_what_came_from_outside(
    after: Duration,
    refused: rumqttc::ClientError,
    decode: prost::DecodeError,
    count: u32,
)
    ensures
        detail_of(SparkplugError::ConnectionTimeout(after)) == duration_text(after),
        detail_of(SparkplugError::ShutdownTimeout { after }) == duration_text(after),
        detail_of(SparkplugError::FlushTimeout { after, unacked: count }) == duration_text(after),
        detail_of(SparkplugError::Publish(refused))
            == "Failed to send mqtt requests to eventloop"@,
        detail_of(SparkplugError::Disconnect(refused))
            == "Failed to send mqtt requests to eventloop"@,
        detail_of(SparkplugError::Decode(decode)) == "failed to decode Protobuf message: "@
            + trail_text(wire::error_trail(decode)) + wire::error_reason(decode),
{
}

/// A location names each message and its field in turn, the innermost first.
pub proof fn law_a_location_names_each_field_in_turn(
    trail: wire::Trail,
    message: Seq<char>,
    field: Seq<char>,
)
    ensures
        trail_text(Seq::empty()) == Seq::<char>::empty(),
        trail_text(trail.push((message, field))) == trail_text(trail) + message + "."@ + field
            + ": "@,
{
    assert(trail.push((message, field)).drop_last() =~= trail);
}

/// An error of another crate becomes the error that carries it.
pub proof fn law_an_outside_error_is_carried_whole(
    refused: rumqttc::ClientError,
    encode: prost::EncodeError,
    decode: prost::DecodeError,
)
    ensures
        <SparkplugError as vstd::std_specs::convert::FromSpec<rumqttc::ClientError>>::from_spec(
            refused,
        ) == SparkplugError::Publish(refused),
        <SparkplugError as vstd::std_specs::convert::FromSpec<prost::EncodeError>>::from_spec(
            encode,
        ) == SparkplugError::Encode(encode),
        <SparkplugError as vstd::std_specs::convert::FromSpec<prost::DecodeError>>::from_spec(
            decode,
        ) == SparkplugError::Decode(decode),
        <SparkplugError as vstd::std_specs::convert::FromSpec<
            rumqttc::ClientError,
        >>::obeys_from_spec(),
        <SparkplugError as vstd::std_specs::convert::FromSpec<
            prost::EncodeError,
        >>::obeys_from_spec(),
        <SparkplugError as vstd::std_specs::convert::FromSpec<
            prost::DecodeError,
        >>::obeys_from_spec(),
{
}

/// The text of an encode error names both capacities in base ten.
pub proof fn law_an_encode_error_names_both_capacities(error: prost::EncodeError)
    ensures
        detail_of(SparkplugError::Encode(error))
            == "failed to encode Protobuf message; insufficient buffer capacity (required: "@
            + text::decimal(capacity_required(error) as nat) + ", remaining: "@ + text::decimal(
            capacity_remaining(error) as nat,
        ) + ")"@,
{
}

} // verus!
