//! Sparkplug B over MQTT, for industrial telemetry.
//!
//! The crate holds what a Sparkplug client decides: which topics exist and
//! how they are read, how a payload is laid out in bytes, which number each
//! message of an edge node carries, what the broker has acknowledged, and
//! what a connect, a publish, a flush and a shutdown report. It opens no
//! socket and reads no file: the caller owns the MQTT connection, hands over
//! what happened, and does what it is told. It does read the clock, where a
//! caller states no instant, and it draws a random number, where a caller
//! names no client id.
//!
//! Every contract is proved, short of those of the small private functions
//! that call other crates and std. Each of these is marked
//! `#[verifier::external_body]` and says what it takes for granted of the
//! function it calls. The clone of a transport is taken for granted too.
//!
//! A client connects in one of two roles. A publisher client takes the edge
//! node of each publish per call. An edge node client names one edge node at
//! connect, and it is the client that announces a birth.

pub mod client;
pub mod error;
pub mod float;
pub mod payload;
pub mod schema;
pub mod sparkplug;
pub mod text;
pub mod wire;

pub use client::{generate_client_id, mqtt_options, mqtt_parts, MqttConfig, MqttSettings};
pub use error::SparkplugError;
pub use payload::nested::{
    DataSet, DataSetValue, MetaData, NestedValue, Parameter, PropertyInner, PropertySet,
    PropertySetList, PropertyValue, Row, Template,
};
pub use payload::{decode_payload, metric, FormattedValue, Metric, Number, Payload};
pub use rumqttc::Transport;
pub use sparkplug::client::publish::{BirthDraft, Draft, InFlight, Message, Outgoing};
pub use sparkplug::client::{
    Connecting, Identity, SparkplugClient, DEFAULT_CONNECT_TIMEOUT_SECS,
};
pub use sparkplug::datatype::DataType;
pub use sparkplug::delivery::{DeliveryTracker, FlushWindow, PublishInFlight, PublishTicket};
pub use sparkplug::eventloop::{Health, LoopEvent, LoopState};
pub use sparkplug::publisher::SparkplugPublisher;
pub use sparkplug::topic::ids::{DeviceId, EdgeNode, EdgeNodeId, GroupId, HostId};
pub use sparkplug::topic::{Namespace, SparkplugTopic};
pub use sparkplug::types::{MessageType, MetricValue, QoS, Role, Shape, Timestamp};
