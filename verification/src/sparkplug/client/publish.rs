//! Everything that puts a Sparkplug message on the wire.
//!
//! A publish goes through three steps. The publish methods check what the
//! caller gives and make a [`Draft`]. [`SparkplugClient::start`] takes the
//! lock of the edge node, draws its number, encodes the payload, and counts
//! the publish when the broker will acknowledge it. The caller then hands the
//! message to the MQTT client, and [`SparkplugClient::settle`] or
//! [`SparkplugClient::cancel`] ends the publish.
//!
//! A publish that is refused or cancelled gives back the number it drew and
//! the count it took.

use crate::error::SparkplugError;
use crate::payload::codec;
use crate::payload::{self, Metric, MetricView, Payload, PayloadView};
use crate::sparkplug::client::{self, ClientView, IdentityView, SparkplugClient};
use crate::sparkplug::delivery::{self, DeliveryTracker, DeliveryView, PublishInFlight};
use crate::sparkplug::payload_helpers;
use crate::sparkplug::sequence::{self, Locks, ReservationView, SeqReservation};
use crate::sparkplug::topic::ids::{self, DeviceId, EdgeNodeId, EdgeNodeView, GroupId};
use crate::sparkplug::topic::{self, SparkplugTopic, TopicFault, TopicView};
use crate::sparkplug::types::{self, MessageType, MetricValue, QoS, Role, Timestamp, WireOptions};
use std::time::SystemTime;
use vstd::prelude::*;

verus! {

// ---------------------------------------------------------------------------
// Counting one publish
// ---------------------------------------------------------------------------

/// Count a publish before it goes to the MQTT client, when the broker will
/// acknowledge it.
///
/// The count must rise before the MQTT client sees the message. A flush can
/// run while a publish is still in flight. A disconnect in that window would
/// record no loss, and an early PubAck would leave a count that never
/// clears. Over-counting only delays a flush, so it is the safe direction.
pub fn count_publish(delivery: &mut DeliveryTracker, options: WireOptions) -> (in_flight: Option<
    PublishInFlight,
>)
    requires
        options.counted ==> delivery::has_room(old(delivery)@),
    ensures
        final(delivery)@ == delivery_counted(old(delivery)@, options),
        payload::view_of(in_flight) == generation_counted(old(delivery)@, options),
{
    if options.counted {
        Some(delivery.publish_in_flight())
    } else {
        None
    }
}

/// End a publish that the MQTT client took or refused.
///
/// A refusal rolls the count back, when there is one to roll back. It can
/// never cancel a count that a disconnect cleared or that belongs to another
/// publish. The refusal reaches the caller whether the publish was counted or
/// not.
///
/// # Errors
///
/// Returns [`SparkplugError::Publish`] when the MQTT client refused the
/// message.
pub fn settle_publish(
    delivery: &mut DeliveryTracker,
    in_flight: Option<PublishInFlight>,
    sent: Result<(), rumqttc::ClientError>,
) -> (settled: Result<(), SparkplugError>)
    ensures
        final(delivery)@ == delivery_settled(
            old(delivery)@,
            payload::view_of(in_flight),
            sent is Ok,
        ),
        settled == sent_outcome(sent),
{
    match sent {
        Ok(()) => {
            end_publish(delivery, in_flight, true);
            Ok(())
        },
        Err(error) => {
            end_publish(delivery, in_flight, false);
            Err(SparkplugError::from(error))
        },
    }
}

fn end_publish(delivery: &mut DeliveryTracker, in_flight: Option<PublishInFlight>, taken: bool)
    ensures
        final(delivery)@ == delivery_settled(old(delivery)@, payload::view_of(in_flight), taken),
{
    if let Some(in_flight) = in_flight {
        delivery.end_publish(in_flight, taken);
    }
}

/// The counts once a publish is on its way.
pub open spec fn delivery_counted(d: DeliveryView, options: WireOptions) -> DeliveryView {
    if options.counted {
        delivery::after_publish(d)
    } else {
        d
    }
}

/// The generation a publish was counted in, if it was counted.
pub open spec fn generation_counted(d: DeliveryView, options: WireOptions) -> Option<u64> {
    if options.counted {
        Some(d.generation)
    } else {
        None
    }
}

/// The counts once a publish has ended.
pub open spec fn delivery_settled(
    d: DeliveryView,
    generation: Option<u64>,
    taken: bool,
) -> DeliveryView {
    match generation {
        Some(generation) if !taken => delivery::after_refusal(d, generation),
        _ => d,
    }
}

/// What a publish reports, from what the MQTT client said.
pub open spec fn sent_outcome(sent: Result<(), rumqttc::ClientError>) -> Result<
    (),
    SparkplugError,
> {
    match sent {
        Ok(()) => Ok(()),
        Err(error) => Err(SparkplugError::Publish(error)),
    }
}

// ---------------------------------------------------------------------------
// What is published
// ---------------------------------------------------------------------------

/// The metrics of a batch, each with the instant the caller gave beside it.
pub open spec fn batch_metrics(batch: Seq<(String, MetricValue, u64)>) -> Seq<MetricView> {
    batch.map_values(
        |entry: (String, MetricValue, u64)|
            payload_helpers::built_metric(entry.0@, entry.1, entry.2),
    )
}

/// Map caller metrics onto their payload form.
///
/// Each metric carries the instant the caller gives beside it, so a batch
/// can hold values read at different times.
pub fn proto_metrics(metrics: Vec<(String, MetricValue, u64)>) -> (mapped: Vec<Metric>)
    ensures
        payload::metric_views(mapped@) == batch_metrics(metrics@),
{
    let mut mapped: Vec<Metric> = Vec::new();
    let ghost batch = metrics@;
    for entry in entries: metrics
        invariant
            entries.seq() == batch,
            payload::metric_views(mapped@) == batch_metrics(batch.take(entries.index() as int)),
    {
        let ghost done = entries.index() as int;
        let ghost before = mapped@;
        let (name, value, at) = entry;
        mapped.push(payload_helpers::create_metric(name.as_str(), value, Timestamp(at)));
        assert(payload::metric_views(mapped@) =~= payload::metric_views(before).push(
            payload_helpers::built_metric(batch[done].0@, batch[done].1, batch[done].2),
        ));
        assert(batch_metrics(batch.take(done + 1)) =~= batch_metrics(batch.take(done)).push(
            payload_helpers::built_metric(batch[done].0@, batch[done].1, batch[done].2),
        ));
    }
    assert(batch.take(batch.len() as int) =~= batch);
    mapped
}

/// One message to be published, before it has drawn its `seq`.
///
/// The topic names an edge node, because every message that carries metrics
/// belongs to the count of one.
#[derive(Debug)]
pub struct Draft {
    topic: SparkplugTopic,
    metrics: Vec<Metric>,
    at: Timestamp,
}

/// What a [`Draft`] holds.
#[verifier::ext_equal]
pub struct DraftView {
    pub topic: TopicView,
    pub metrics: Seq<MetricView>,
    pub at: u64,
}

impl View for Draft {
    type V = DraftView;

    closed spec fn view(&self) -> DraftView {
        DraftView {
            topic: self.topic@,
            metrics: payload::metric_views(self.metrics@),
            at: self.at.0,
        }
    }
}

impl Draft {
    #[verifier::type_invariant]
    closed spec fn names_an_edge_node(self) -> bool {
        topic::group_of(self.topic@) is Some
    }
}

/// Why a topic that names no edge node takes no metric.
pub open spec fn no_seq(topic: TopicView) -> Seq<char> {
    topic::rendered(topic) + " names no edge node, so it holds no seq count"@
}

/// What drafting a message for a topic gives.
pub open spec fn draft_outcome(topic: TopicView, metrics: Seq<MetricView>, at: u64) -> Result<
    DraftView,
    TopicFault,
> {
    if topic::group_of(topic) is Some {
        Ok(DraftView { topic, metrics, at })
    } else {
        Err(TopicFault::Invalid(no_seq(topic)))
    }
}

/// What building a DDATA topic from unchecked identifiers gives. The group
/// is checked first, the device last.
pub open spec fn ddata_outcome(
    namespace: Seq<char>,
    group: Seq<char>,
    node: Seq<char>,
    device: Seq<char>,
) -> Result<TopicView, TopicFault> {
    match (
        topic::checked("group id"@, group),
        topic::checked("edge node id"@, node),
        topic::checked("device id"@, device),
    ) {
        (Err(fault), _, _) => Err(fault),
        (Ok(_), Err(fault), _) => Err(fault),
        (Ok(_), Ok(_), Err(fault)) => Err(fault),
        (Ok(group), Ok(node), Ok(device)) => Ok(
            topic::device_view(namespace, MessageType::DDATA, group, node, device),
        ),
    }
}

/// What drafting data for an edge node the caller names gives.
pub open spec fn data_outcome(
    namespace: Seq<char>,
    group: Seq<char>,
    node: Seq<char>,
    device: Seq<char>,
    metrics: Seq<MetricView>,
    at: u64,
) -> Result<DraftView, TopicFault> {
    match ddata_outcome(namespace, group, node, device) {
        Ok(topic) => Ok(DraftView { topic, metrics, at }),
        Err(fault) => Err(fault),
    }
}

/// Whether a result is the one that `outcome` describes.
pub open spec fn is_draft(
    draft: Result<Draft, SparkplugError>,
    outcome: Result<DraftView, TopicFault>,
) -> bool {
    match draft {
        Ok(draft) => outcome == Ok::<_, TopicFault>(draft@) && topic::is_well_formed(
            draft@.topic,
        ),
        Err(error) => outcome matches Err(fault) && topic::fault_of(error) == Some(fault),
    }
}

/// Both births of a device, before they have drawn their `seq`.
#[derive(Debug)]
pub struct BirthDraft {
    nbirth: SparkplugTopic,
    dbirth: SparkplugTopic,
    at: Timestamp,
}

/// What a [`BirthDraft`] holds.
#[verifier::ext_equal]
pub struct BirthView {
    pub namespace: Seq<char>,
    pub edge_node: EdgeNodeView,
    pub device: Seq<char>,
    pub at: u64,
}

/// The topic of the NBIRTH.
pub open spec fn nbirth_of(birth: BirthView) -> TopicView {
    topic::node_view(
        birth.namespace,
        MessageType::NBIRTH,
        birth.edge_node.group,
        birth.edge_node.edge_node_id,
    )
}

/// The topic of the DBIRTH.
pub open spec fn dbirth_of(birth: BirthView) -> TopicView {
    topic::device_view(
        birth.namespace,
        MessageType::DBIRTH,
        birth.edge_node.group,
        birth.edge_node.edge_node_id,
        birth.device,
    )
}

impl View for BirthDraft {
    type V = BirthView;

    closed spec fn view(&self) -> BirthView {
        BirthView {
            namespace: self.nbirth@.namespace,
            edge_node: pair_of(self.nbirth@),
            device: topic::device_of(self.dbirth@).unwrap(),
            at: self.at.0,
        }
    }
}

impl BirthDraft {
    #[verifier::type_invariant]
    closed spec fn names_one_edge_node(self) -> bool {
        self.nbirth@ == nbirth_of(self@) && self.dbirth@ == dbirth_of(self@)
    }
}

// ---------------------------------------------------------------------------
// What goes out
// ---------------------------------------------------------------------------

/// One message for the MQTT client.
#[derive(Debug, PartialEq, Eq)]
pub struct Message {
    pub topic: String,
    pub qos: QoS,
    pub retain: bool,
    pub payload: Vec<u8>,
}

/// What a [`Message`] holds.
#[verifier::ext_equal]
pub struct MessageView {
    pub topic: Seq<char>,
    pub qos: QoS,
    pub retain: bool,
    pub payload: Seq<u8>,
}

impl View for Message {
    type V = MessageView;

    open spec fn view(&self) -> MessageView {
        MessageView {
            topic: self.topic@,
            qos: self.qos,
            retain: self.retain,
            payload: self.payload@,
        }
    }
}

/// The message that carries a payload, as a role sends it.
pub open spec fn message_of(role: Role, topic: TopicView, payload: PayloadView) -> MessageView {
    let options = types::options_of(role, topic.message_type);
    MessageView {
        topic: topic::rendered(topic),
        qos: options.qos,
        retain: options.retain,
        payload: codec::payload_bytes(payload),
    }
}

/// What a publish holds while its message is on its way: the lock of its
/// edge node, and its delivery count if it has one.
///
/// End it with [`SparkplugClient::settle`] or [`SparkplugClient::cancel`].
#[must_use]
#[derive(Debug)]
pub struct InFlight {
    reservation: SeqReservation,
    counted: Option<PublishInFlight>,
}

/// What an [`InFlight`] holds.
#[verifier::ext_equal]
pub struct InFlightView {
    pub reservation: ReservationView,
    /// The generation the publish was counted in, if it was counted.
    pub generation: Option<u64>,
}

impl View for InFlight {
    type V = InFlightView;

    closed spec fn view(&self) -> InFlightView {
        InFlightView {
            reservation: self.reservation@,
            generation: payload::view_of(self.counted),
        }
    }
}

impl InFlight {
    /// The `seq` the message carries.
    #[must_use]
    pub fn seq(&self) -> (seq: u8)
        ensures
            seq == self@.reservation.number,
    {
        self.reservation.number()
    }
}

/// A message for the MQTT client, and what its publish holds meanwhile.
#[must_use]
#[derive(Debug)]
pub struct Outgoing {
    pub message: Message,
    pub in_flight: InFlight,
}

/// The edge node a topic names.
pub open spec fn pair_of(topic: TopicView) -> EdgeNodeView {
    EdgeNodeView {
        group: topic::group_of(topic).unwrap(),
        edge_node_id: topic::node_of(topic).unwrap(),
    }
}

/// The number a message on a topic draws. An NBIRTH starts the count of its
/// edge node at 0, and every other message adds 1.
pub open spec fn drawn(locks: Locks, topic: TopicView) -> ReservationView {
    let previous = sequence::count_of(locks, pair_of(topic));
    ReservationView {
        edge_node: pair_of(topic),
        number: if topic.message_type == MessageType::NBIRTH {
            0
        } else {
            sequence::following(previous)
        },
        previous,
    }
}

/// How a client sends a message on a topic.
pub open spec fn client_options(client: ClientView, topic: TopicView) -> WireOptions {
    types::options_of(client::role_of(client.identity), topic.message_type)
}

/// Whether a client can count one more message on a topic.
pub open spec fn can_send(client: ClientView, topic: TopicView) -> bool {
    client_options(client, topic).counted ==> delivery::has_room(client.delivery)
}

/// A client once a message on a topic is on its way.
pub open spec fn client_sending(client: ClientView, topic: TopicView) -> ClientView {
    ClientView {
        locks: sequence::locks_taken(client.locks, pair_of(topic)),
        delivery: delivery_counted(client.delivery, client_options(client, topic)),
        ..client
    }
}

/// What the publish of a message on a topic holds.
pub open spec fn holding(client: ClientView, topic: TopicView) -> InFlightView {
    InFlightView {
        reservation: drawn(client.locks, topic),
        generation: generation_counted(client.delivery, client_options(client, topic)),
    }
}

/// A client once a publish has ended.
pub open spec fn client_settled(
    client: ClientView,
    in_flight: InFlightView,
    taken: bool,
) -> ClientView {
    ClientView {
        locks: if taken {
            sequence::locks_committed(client.locks, in_flight.reservation)
        } else {
            sequence::locks_released(client.locks, in_flight.reservation)
        },
        delivery: delivery_settled(client.delivery, in_flight.generation, taken),
        ..client
    }
}

/// A client once the MQTT client took an NBIRTH and the DBIRTH after it is
/// on its way. The lock stays held in between.
pub open spec fn client_continuing(
    client: ClientView,
    in_flight: InFlightView,
    birth: BirthView,
) -> ClientView {
    let settled = delivery_settled(client.delivery, in_flight.generation, true);
    ClientView {
        delivery: delivery_counted(settled, client_options(client, dbirth_of(birth))),
        ..client
    }
}

/// What the publish of a DBIRTH holds: the same lock, and the next number.
pub open spec fn holding_next(
    client: ClientView,
    in_flight: InFlightView,
    birth: BirthView,
) -> InFlightView {
    InFlightView {
        reservation: ReservationView {
            number: sequence::following(in_flight.reservation.number),
            ..in_flight.reservation
        },
        generation: generation_counted(client.delivery, client_options(client, dbirth_of(birth))),
    }
}

impl SparkplugClient {
    // -- drafting ----------------------------------------------------------

    /// Draft a single metric as a DDATA message for the edge node the caller
    /// names.
    ///
    /// The topic is `{version}/{group_id}/DDATA/{node_id}/{device_id}`, so
    /// the caller controls the edge node per publish. A single client can
    /// therefore publish as many different edge nodes.
    ///
    /// # Errors
    ///
    /// Returns [`SparkplugError::InvalidTopic`] when one of the three
    /// identifiers cannot stand as a topic segment.
    pub fn publish_metric(
        &self,
        group_id: &str,
        node_id: &str,
        device_id: &str,
        metric_name: &str,
        value: MetricValue,
        timestamp_ms: u64,
    ) -> (draft: Result<Draft, SparkplugError>)
        ensures
            is_draft(
                draft,
                data_outcome(
                    self@.namespace,
                    group_id@,
                    node_id@,
                    device_id@,
                    seq![payload_helpers::built_metric(metric_name@, value, timestamp_ms)],
                    timestamp_ms,
                ),
            ),
            draft is Ok <==> ids::is_usable(group_id@) && ids::is_usable(node_id@)
                && ids::is_usable(device_id@),
            draft matches Ok(draft) ==> {
                &&& draft@.at == timestamp_ms
                &&& draft@.topic.namespace == self@.namespace
                &&& draft@.topic.message_type == MessageType::DDATA
                &&& topic::group_of(draft@.topic) == Some(group_id@)
                &&& topic::node_of(draft@.topic) == Some(node_id@)
                &&& topic::device_of(draft@.topic) == Some(device_id@)
                &&& draft@.metrics.len() == 1
                &&& draft@.metrics[0].name == Some(metric_name@)
                &&& draft@.metrics[0].timestamp == Some(timestamp_ms)
                &&& draft@.metrics[0].value == Some(types::proto_value(value))
            },
    {
        let metrics = one_metric(metric_name, value, Timestamp(timestamp_ms));
        match self.ddata_topic(group_id, node_id, device_id) {
            Ok(topic) => draft_for(topic, metrics, Timestamp(timestamp_ms)),
            Err(error) => Err(error),
        }
    }

    /// Draft a batch of metrics as one DDATA message for the edge node the
    /// caller names, stamped with the instant the clock shows.
    ///
    /// # Errors
    ///
    /// See [`Self::publish_metric`].
    pub fn publish_metrics(
        &self,
        group_id: &str,
        node_id: &str,
        device_id: &str,
        metrics: Vec<(String, MetricValue, u64)>,
    ) -> (draft: Result<Draft, SparkplugError>)
        ensures
            exists|reading: SystemTime|
                is_draft(
                    draft,
                    data_outcome(
                        self@.namespace,
                        group_id@,
                        node_id@,
                        device_id@,
                        batch_metrics(metrics@),
                        #[trigger] types::instant_at(reading),
                    ),
                ),
    {
        self.publish_metrics_at(group_id, node_id, device_id, metrics, Timestamp::now())
    }

    /// Draft a batch of metrics as one DDATA message for the edge node the
    /// caller names, stamped with the instant the caller states.
    ///
    /// # Errors
    ///
    /// See [`Self::publish_metric`].
    pub fn publish_metrics_at(
        &self,
        group_id: &str,
        node_id: &str,
        device_id: &str,
        metrics: Vec<(String, MetricValue, u64)>,
        at: Timestamp,
    ) -> (draft: Result<Draft, SparkplugError>)
        ensures
            is_draft(
                draft,
                data_outcome(
                    self@.namespace,
                    group_id@,
                    node_id@,
                    device_id@,
                    batch_metrics(metrics@),
                    at.0,
                ),
            ),
            draft is Ok <==> ids::is_usable(group_id@) && ids::is_usable(node_id@)
                && ids::is_usable(device_id@),
            draft matches Ok(draft) ==> {
                &&& draft@.at == at.0
                &&& draft@.topic.namespace == self@.namespace
                &&& draft@.topic.message_type == MessageType::DDATA
                &&& topic::group_of(draft@.topic) == Some(group_id@)
                &&& topic::node_of(draft@.topic) == Some(node_id@)
                &&& topic::device_of(draft@.topic) == Some(device_id@)
                &&& draft@.metrics.len() == metrics@.len()
            },
    {
        match self.ddata_topic(group_id, node_id, device_id) {
            Ok(topic) => draft_for(topic, proto_metrics(metrics), at),
            Err(error) => Err(error),
        }
    }

    /// Draft one metric for a topic the caller already built.
    ///
    /// Prefer this to [`Self::publish_metric`]. The identity segments are
    /// checked when their types are built, so a group, an edge node and a
    /// device cannot be passed in the wrong order.
    ///
    /// # Errors
    ///
    /// Returns [`SparkplugError::InvalidTopic`] when the topic names no edge
    /// node, because a metric belongs to the count of one edge node.
    pub fn publish_metric_to(
        &self,
        topic: &SparkplugTopic,
        metric_name: &str,
        value: MetricValue,
        timestamp_ms: u64,
    ) -> (draft: Result<Draft, SparkplugError>)
        ensures
            is_draft(
                draft,
                draft_outcome(
                    topic@,
                    seq![payload_helpers::built_metric(metric_name@, value, timestamp_ms)],
                    timestamp_ms,
                ),
            ),
            draft is Ok <==> topic::group_of(topic@) is Some,
            draft matches Ok(draft) ==> {
                &&& draft@.at == timestamp_ms
                &&& draft@.topic == topic@
                &&& draft@.metrics.len() == 1
                &&& draft@.metrics[0].name == Some(metric_name@)
                &&& draft@.metrics[0].timestamp == Some(timestamp_ms)
                &&& draft@.metrics[0].value == Some(types::proto_value(value))
            },
    {
        let metrics = one_metric(metric_name, value, Timestamp(timestamp_ms));
        draft_for(topic.clone(), metrics, Timestamp(timestamp_ms))
    }

    /// Draft a batch of metrics for a topic the caller already built,
    /// stamped with the instant the clock shows.
    ///
    /// The batch goes out as one message.
    ///
    /// # Errors
    ///
    /// See [`Self::publish_metric_to`].
    pub fn publish_metrics_to(
        &self,
        topic: &SparkplugTopic,
        metrics: Vec<(String, MetricValue, u64)>,
    ) -> (draft: Result<Draft, SparkplugError>)
        ensures
            exists|reading: SystemTime|
                is_draft(
                    draft,
                    draft_outcome(
                        topic@,
                        batch_metrics(metrics@),
                        #[trigger] types::instant_at(reading),
                    ),
                ),
    {
        self.publish_metrics_to_at(topic, metrics, Timestamp::now())
    }

    /// Draft a batch of metrics for a topic the caller already built,
    /// stamped with the instant the caller states.
    ///
    /// # Errors
    ///
    /// See [`Self::publish_metric_to`].
    pub fn publish_metrics_to_at(
        &self,
        topic: &SparkplugTopic,
        metrics: Vec<(String, MetricValue, u64)>,
        at: Timestamp,
    ) -> (draft: Result<Draft, SparkplugError>)
        ensures
            is_draft(draft, draft_outcome(topic@, batch_metrics(metrics@), at.0)),
            draft is Ok <==> topic::group_of(topic@) is Some,
            draft matches Ok(draft) ==> {
                &&& draft@.at == at.0
                &&& draft@.topic == topic@
                &&& draft@.metrics.len() == metrics@.len()
            },
    {
        draft_for(topic.clone(), proto_metrics(metrics), at)
    }

    /// Draft NBIRTH and DBIRTH for a device of this client's edge node,
    /// stamped with the one instant the clock shows.
    ///
    /// The group and the edge node come from the identity this client took
    /// at connect, and nothing can change them afterwards. So the births and
    /// the data of that edge node name one edge node and share one `seq`
    /// count.
    ///
    /// # Errors
    ///
    /// Returns [`SparkplugError::NotAnEdgeNode`] when this client connected
    /// as a publisher. Such a client owns no edge node, so it has none to
    /// announce.
    pub fn publish_birth(&self, device: DeviceId<'_>) -> (birth: Result<BirthDraft, SparkplugError>)
        ensures
            match birth {
                Ok(birth) => {
                    &&& self@.identity == IdentityView::EdgeNode(birth@.edge_node)
                    &&& exists|reading: SystemTime|
                        birth_of(self@, device@, #[trigger] types::instant_at(reading)) == birth@
                    &&& exists|reading: SystemTime|
                        birth@.at == #[trigger] types::instant_at(reading)
                    &&& birth@.device == device@
                    &&& birth@.namespace == self@.namespace
                },
                Err(error) => self@.identity == IdentityView::Publisher && error
                    == SparkplugError::NotAnEdgeNode,
            },
    {
        self.publish_birth_at(device, Timestamp::now())
    }

    /// Draft NBIRTH and DBIRTH for a device of this client's edge node,
    /// stamped with the instant the caller states.
    ///
    /// # Errors
    ///
    /// See [`Self::publish_birth`].
    pub fn publish_birth_at(&self, device: DeviceId<'_>, at: Timestamp) -> (birth: Result<
        BirthDraft,
        SparkplugError,
    >)
        ensures
            match birth {
                Ok(birth) => {
                    &&& self@.identity == IdentityView::EdgeNode(birth@.edge_node)
                    &&& birth_of(self@, device@, at.0) == birth@
                    &&& birth@.at == at.0
                    &&& birth@.device == device@
                    &&& birth@.namespace == self@.namespace
                },
                Err(error) => self@.identity == IdentityView::Publisher && error
                    == SparkplugError::NotAnEdgeNode,
            },
    {
        let edge_node = match self.edge_node() {
            Some(edge_node) => edge_node,
            None => return Err(SparkplugError::NotAnEdgeNode),
        };
        let group = edge_node.group();
        let node = edge_node.edge_node_id();
        Ok(
            BirthDraft {
                nbirth: self.namespace.nbirth(group, node),
                dbirth: self.namespace.dbirth(group, node, device),
                at,
            },
        )
    }

    /// Build a DDATA topic from unchecked identifiers.
    fn ddata_topic(&self, group_id: &str, node_id: &str, device_id: &str) -> (topic: Result<
        SparkplugTopic,
        SparkplugError,
    >)
        ensures
            match topic {
                Ok(topic) => ddata_outcome(self@.namespace, group_id@, node_id@, device_id@)
                    == Ok::<_, TopicFault>(topic@) && topic::is_well_formed(topic@),
                Err(error) => ddata_outcome(
                    self@.namespace,
                    group_id@,
                    node_id@,
                    device_id@,
                ) matches Err(fault) && topic::fault_of(error) == Some(fault),
            },
    {
        let group_id = match GroupId::new(group_id) {
            Ok(group_id) => group_id,
            Err(error) => return Err(error),
        };
        let node_id = match EdgeNodeId::new(node_id) {
            Ok(node_id) => node_id,
            Err(error) => return Err(error),
        };
        let device_id = match DeviceId::new(device_id) {
            Ok(device_id) => device_id,
            Err(error) => return Err(error),
        };
        Ok(self.namespace.ddata(group_id, node_id, device_id))
    }

    // -- sending -----------------------------------------------------------

    /// Whether the client can count one more publish.
    #[must_use]
    pub fn has_room(&self) -> (room: bool)
        ensures
            room == delivery::has_room(self@.delivery),
    {
        self.delivery.has_room()
    }

    /// Start to publish a draft: take the lock of its edge node, draw its
    /// number, and count it when the broker will acknowledge it.
    ///
    /// The draft comes back when another publish for that edge node holds
    /// the lock; wait until that one ends, and start again.
    pub fn start(&mut self, draft: Draft) -> (outgoing: Result<Outgoing, Draft>)
        requires
            can_send(old(self)@, draft@.topic),
        ensures
            match outgoing {
                Ok(outgoing) => {
                    &&& !sequence::is_held(old(self)@.locks, pair_of(draft@.topic))
                    &&& outgoing.in_flight@ == holding(old(self)@, draft@.topic)
                    &&& outgoing.message@ == message_of(
                        client::role_of(old(self)@.identity),
                        draft@.topic,
                        payload_helpers::built_payload(
                            draft@.metrics,
                            draft@.at,
                            drawn(old(self)@.locks, draft@.topic).number,
                        ),
                    )
                    &&& final(self)@ == client_sending(old(self)@, draft@.topic)
                },
                Err(held) => {
                    &&& sequence::is_held(old(self)@.locks, pair_of(draft@.topic))
                    &&& held@ == draft@
                    &&& final(self)@ == old(self)@
                },
            },
    {
        proof {
            use_type_invariant(&draft);
        }
        let reservation = match self.reserve_seq(&draft.topic) {
            Some(reservation) => reservation,
            None => return Err(draft),
        };
        let Draft { topic, metrics, at } = draft;
        let payload = payload_helpers::create_payload_with_seq(metrics, at, reservation.number());
        Ok(self.outgoing(&topic, &payload, reservation))
    }

    /// Start to publish both births: take the lock of the edge node, set its
    /// count back to 0, and send the NBIRTH.
    ///
    /// Returns `None` when another publish for that edge node holds the
    /// lock; wait until that one ends, and start again.
    pub fn start_birth(&mut self, birth: &BirthDraft) -> (outgoing: Option<Outgoing>)
        requires
            can_send(old(self)@, nbirth_of(birth@)),
        ensures
            match outgoing {
                Some(outgoing) => {
                    &&& !sequence::is_held(old(self)@.locks, birth@.edge_node)
                    &&& outgoing.in_flight@ == holding(old(self)@, nbirth_of(birth@))
                    &&& outgoing.message@ == message_of(
                        client::role_of(old(self)@.identity),
                        nbirth_of(birth@),
                        payload_helpers::birth_payload("Node Control/Rebirth"@, birth@.at, 0),
                    )
                    &&& final(self)@ == client_sending(old(self)@, nbirth_of(birth@))
                },
                None => {
                    &&& sequence::is_held(old(self)@.locks, birth@.edge_node)
                    &&& final(self)@ == old(self)@
                },
            },
    {
        proof {
            use_type_invariant(birth);
        }
        let reservation = match self.reserve_seq(&birth.nbirth) {
            Some(reservation) => reservation,
            None => return None,
        };
        let payload = payload_helpers::create_birth_certificate_with_seq(
            birth.at,
            reservation.number(),
        );
        Some(self.outgoing(&birth.nbirth, &payload, reservation))
    }

    /// Go on from the NBIRTH to the DBIRTH, once the MQTT client took the
    /// NBIRTH.
    ///
    /// One reservation covers both, so no publish for that edge node draws a
    /// number between them. End the DBIRTH with [`Self::settle`] or
    /// [`Self::cancel`].
    ///
    /// # Errors
    ///
    /// Returns [`SparkplugError::Publish`] when the MQTT client refused the
    /// NBIRTH. The count then stays what it was before the NBIRTH.
    pub fn continue_birth(
        &mut self,
        birth: &BirthDraft,
        in_flight: InFlight,
        sent: Result<(), rumqttc::ClientError>,
    ) -> (outgoing: Result<Outgoing, SparkplugError>)
        requires
            sent is Ok ==> can_send(old(self)@, dbirth_of(birth@)),
        ensures
            match outgoing {
                Ok(outgoing) => {
                    &&& sent is Ok
                    &&& outgoing.in_flight@ == holding_next(old(self)@, in_flight@, birth@)
                    &&& outgoing.message@ == message_of(
                        client::role_of(old(self)@.identity),
                        dbirth_of(birth@),
                        payload_helpers::birth_payload(
                            "Device Control/Rebirth"@,
                            birth@.at,
                            sequence::following(in_flight@.reservation.number),
                        ),
                    )
                    &&& final(self)@ == client_continuing(old(self)@, in_flight@, birth@)
                },
                Err(error) => {
                    &&& sent matches Err(refused)
                    &&& error == SparkplugError::Publish(refused)
                    &&& final(self)@ == client_settled(old(self)@, in_flight@, false)
                },
            },
    {
        proof {
            use_type_invariant(birth);
        }
        let InFlight { reservation, counted } = in_flight;
        if let Err(error) = settle_publish(&mut self.delivery, counted, sent) {
            self.seq.release(reservation);
            return Err(error);
        }
        let mut reservation = reservation;
        let seq: u8 = reservation.next();
        let payload = payload_helpers::create_device_birth_certificate_with_seq(birth.at, seq);
        Ok(self.outgoing(&birth.dbirth, &payload, reservation))
    }

    /// End a publish that the MQTT client took or refused.
    ///
    /// A message it took keeps its number, and its delivery count stays
    /// outstanding. A message it refused leaves its number for the next one,
    /// and holds no later flush open.
    ///
    /// # Errors
    ///
    /// Returns [`SparkplugError::Publish`] when the MQTT client refused the
    /// message.
    pub fn settle(&mut self, in_flight: InFlight, sent: Result<(), rumqttc::ClientError>) -> (settled:
        Result<(), SparkplugError>)
        ensures
            final(self)@ == client_settled(old(self)@, in_flight@, sent is Ok),
            settled == sent_outcome(sent),
    {
        let InFlight { reservation, counted } = in_flight;
        let settled = settle_publish(&mut self.delivery, counted, sent);
        match settled {
            Ok(()) => self.seq.commit(reservation),
            Err(_) => self.seq.release(reservation),
        }
        settled
    }

    /// End a publish that was cancelled before the MQTT client took it.
    ///
    /// It ends as a refused one does.
    pub fn cancel(&mut self, in_flight: InFlight)
        ensures
            final(self)@ == client_settled(old(self)@, in_flight@, false),
    {
        let InFlight { reservation, counted } = in_flight;
        end_publish(&mut self.delivery, counted, false);
        self.seq.release(reservation);
    }

    /// Draw the `seq` that the next message on a topic carries.
    ///
    /// One place reads the counter, so every publish path counts alike. The
    /// message type of the topic decides which way the count moves. An
    /// NBIRTH declares a new session for its edge node, so it sets that
    /// count back to 0. Every other message adds 1.
    fn reserve_seq(&mut self, topic: &SparkplugTopic) -> (reservation: Option<SeqReservation>)
        requires
            topic::group_of(topic@) is Some,
        ensures
            match reservation {
                Some(reservation) => {
                    &&& !sequence::is_held(old(self)@.locks, pair_of(topic@))
                    &&& reservation@ == drawn(old(self)@.locks, topic@)
                    &&& final(self)@ == (ClientView {
                        locks: sequence::locks_taken(old(self)@.locks, pair_of(topic@)),
                        ..old(self)@
                    })
                },
                None => {
                    &&& sequence::is_held(old(self)@.locks, pair_of(topic@))
                    &&& final(self)@ == old(self)@
                },
            },
    {
        match (topic.group_id(), topic.node_id()) {
            (Some(group), Some(node)) => match topic.message_type() {
                MessageType::NBIRTH => self.seq.reserve_reset(group, node),
                _ => self.seq.reserve(group, node),
            },
            _ => None,
        }
    }

    /// Put a payload on its topic the way this client's role requires, and
    /// count it when the broker will acknowledge it.
    fn outgoing(
        &mut self,
        topic: &SparkplugTopic,
        payload: &Payload,
        reservation: SeqReservation,
    ) -> (outgoing: Outgoing)
        requires
            can_send(old(self)@, topic@),
        ensures
            outgoing.message@ == message_of(
                client::role_of(old(self)@.identity),
                topic@,
                payload@,
            ),
            outgoing.in_flight@ == (InFlightView {
                reservation: reservation@,
                generation: generation_counted(
                    old(self)@.delivery,
                    client_options(old(self)@, topic@),
                ),
            }),
            final(self)@ == (ClientView {
                delivery: delivery_counted(
                    old(self)@.delivery,
                    client_options(old(self)@, topic@),
                ),
                ..old(self)@
            }),
    {
        let options = types::wire_options(self.role(), topic.message_type());
        let counted = count_publish(&mut self.delivery, options);
        Outgoing {
            message: Message {
                topic: topic.to_string(),
                qos: options.qos,
                retain: options.retain,
                payload: payload.encode_to_vec(),
            },
            in_flight: InFlight { reservation, counted },
        }
    }
}

/// The births of a device of a client's edge node.
pub open spec fn birth_of(client: ClientView, device: Seq<char>, at: u64) -> BirthView {
    BirthView {
        namespace: client.namespace,
        edge_node: match client.identity {
            IdentityView::EdgeNode(pair) => pair,
            IdentityView::Publisher => arbitrary(),
        },
        device,
        at,
    }
}

/// A list of one metric.
fn one_metric(name: &str, value: MetricValue, at: Timestamp) -> (metrics: Vec<Metric>)
    ensures
        payload::metric_views(metrics@) == seq![
            payload_helpers::built_metric(name@, value, at.0),
        ],
{
    let mut metrics: Vec<Metric> = Vec::new();
    metrics.push(payload_helpers::create_metric(name, value, at));
    assert(payload::metric_views(metrics@) =~= seq![
        payload_helpers::built_metric(name@, value, at.0),
    ]);
    metrics
}

/// Draft metrics for a topic.
///
/// # Errors
///
/// Returns [`SparkplugError::InvalidTopic`] when the topic names no edge
/// node. A host topic has that shape, and a STATE message carries no `seq`.
fn draft_for(topic: SparkplugTopic, metrics: Vec<Metric>, at: Timestamp) -> (draft: Result<
    Draft,
    SparkplugError,
>)
    ensures
        is_draft(draft, draft_outcome(topic@, payload::metric_views(metrics@), at.0)),
{
    if topic.group_id().is_none() {
        let mut reason = topic.to_string();
        reason.append(" names no edge node, so it holds no seq count");
        return Err(SparkplugError::InvalidTopic(reason));
    }
    Ok(Draft { topic, metrics, at })
}

// ---------------------------------------------------------------------------
// What holds of every publish
// ---------------------------------------------------------------------------

/// Whether a topic can carry metrics: it is well-formed and names an edge
/// node.
pub open spec fn carries_metrics(topic: TopicView) -> bool {
    topic::is_well_formed(topic) && topic::group_of(topic) is Some
}

/// A publish that is refused or cancelled leaves no trace: every `seq` count
/// and every lock reads as before, nothing more is outstanding, and nothing
/// else about the client changed.
pub proof fn law_a_failed_publish_leaves_no_trace(
    client: ClientView,
    topic: TopicView,
    pair: EdgeNodeView,
)
    requires
        carries_metrics(topic),
        can_send(client, topic),
        !sequence::is_held(client.locks, pair_of(topic)),
        ids::is_usable_pair(pair),
    ensures
        ({
            let after = client_settled(
                client_sending(client, topic),
                holding(client, topic),
                false,
            );
            &&& sequence::lock_of(after.locks, pair) == sequence::lock_of(client.locks, pair)
            &&& after == (ClientView { locks: after.locks, ..client })
        }),
{
    sequence::law_a_released_number_goes_to_the_next_message(
        client.locks,
        drawn(client.locks, topic),
        pair,
    );
}

/// A message the MQTT client took is followed by the next number: the next
/// message of that edge node carries one more, in one byte, unless it is an
/// NBIRTH, which carries 0.
pub proof fn law_messages_count_up(client: ClientView, topic: TopicView, next: TopicView)
    requires
        pair_of(next) == pair_of(topic),
    ensures
        ({
            let after = client_settled(
                client_sending(client, topic),
                holding(client, topic),
                true,
            );
            &&& !sequence::is_held(after.locks, pair_of(topic))
            &&& drawn(after.locks, next).number == if next.message_type == MessageType::NBIRTH {
                0
            } else {
                sequence::following(drawn(client.locks, topic).number)
            }
        }),
{
}

/// While a message is on its way, no other message of its edge node can
/// start, and every other edge node can as before.
pub proof fn law_one_publish_for_one_edge_node_at_a_time(
    client: ClientView,
    topic: TopicView,
    other: EdgeNodeView,
)
    requires
        carries_metrics(topic),
        ids::is_usable_pair(other),
    ensures
        sequence::is_held(client_sending(client, topic).locks, pair_of(topic)),
        other != pair_of(topic) ==> sequence::lock_of(client_sending(client, topic).locks, other)
            == sequence::lock_of(client.locks, other),
{
    if other != pair_of(topic) {
        sequence::law_edge_nodes_count_apart(client.locks, drawn(client.locks, topic), other);
    }
}

/// What a publish of one edge node does to another: nothing, however it
/// ends.
pub proof fn law_edge_nodes_keep_separate_counts(
    client: ClientView,
    topic: TopicView,
    taken: bool,
    other: EdgeNodeView,
)
    requires
        carries_metrics(topic),
        ids::is_usable_pair(other),
        other != pair_of(topic),
    ensures
        sequence::lock_of(
            client_settled(
                client_sending(client, topic),
                holding(client, topic),
                taken,
            ).locks,
            other,
        ) == sequence::lock_of(client.locks, other),
{
    let sending = client_sending(client, topic);
    let reservation = drawn(client.locks, topic);
    sequence::law_edge_nodes_count_apart(client.locks, reservation, other);
    sequence::law_edge_nodes_count_apart(sending.locks, reservation, other);
}

/// The births and the data of one edge node draw from one count: the NBIRTH
/// carries 0, the DBIRTH carries 1, and the message after them carries 2.
/// The lock is held from the first to the second, so nothing comes between.
pub proof fn law_births_and_data_share_one_count(
    client: ClientView,
    birth: BirthView,
    data: TopicView,
)
    requires
        pair_of(data) == birth.edge_node,
        data.message_type != MessageType::NBIRTH,
    ensures
        ({
            let first = client_sending(client, nbirth_of(birth));
            let nbirth = holding(client, nbirth_of(birth));
            let second = client_continuing(first, nbirth, birth);
            let dbirth = holding_next(first, nbirth, birth);
            let after = client_settled(second, dbirth, true);
            &&& nbirth.reservation.number == 0
            &&& dbirth.reservation.number == 1
            &&& drawn(after.locks, data).number == 2
            &&& sequence::is_held(first.locks, birth.edge_node)
            &&& sequence::is_held(second.locks, birth.edge_node)
            &&& !sequence::is_held(after.locks, birth.edge_node)
        }),
{
}

/// A DBIRTH that is refused leaves every count where the NBIRTH found it.
pub proof fn law_a_refused_dbirth_restores_the_count(
    client: ClientView,
    birth: BirthView,
    pair: EdgeNodeView,
)
    requires
        ids::is_usable_pair(birth.edge_node),
        ids::is_usable_pair(pair),
        !sequence::is_held(client.locks, birth.edge_node),
    ensures
        ({
            let first = client_sending(client, nbirth_of(birth));
            let nbirth = holding(client, nbirth_of(birth));
            let second = client_continuing(first, nbirth, birth);
            let dbirth = holding_next(first, nbirth, birth);
            sequence::lock_of(client_settled(second, dbirth, false).locks, pair)
                == sequence::lock_of(client.locks, pair)
        }),
{
    let first = client_sending(client, nbirth_of(birth));
    let nbirth = holding(client, nbirth_of(birth));
    let dbirth = holding_next(first, nbirth, birth);
    sequence::law_a_released_number_goes_to_the_next_message(
        client.locks,
        dbirth.reservation,
        pair,
    );
}

/// Nothing a publish does changes who the client is, so the births and the
/// data of an edge node client always name one edge node.
pub proof fn law_a_publish_keeps_the_identity(
    client: ClientView,
    topic: TopicView,
    in_flight: InFlightView,
    birth: BirthView,
    taken: bool,
)
    ensures
        client_sending(client, topic).identity == client.identity,
        client_continuing(client, in_flight, birth).identity == client.identity,
        client_settled(client, in_flight, taken).identity == client.identity,
        client_sending(client, topic).namespace == client.namespace,
        client_continuing(client, in_flight, birth).namespace == client.namespace,
        client_settled(client, in_flight, taken).namespace == client.namespace,
{
}

/// An edge node client counts none of its births and none of its data, so
/// nothing it sends holds a flush open.
pub proof fn law_an_edge_node_client_leaves_nothing_outstanding(
    client: ClientView,
    topic: TopicView,
)
    requires
        client::role_of(client.identity) == Role::EdgeNode,
        topic.message_type != MessageType::NDEATH,
        topic.message_type != MessageType::STATE,
    ensures
        client_sending(client, topic).delivery == client.delivery,
        client_options(client, topic).qos == QoS::AtMostOnce,
        !client_options(client, topic).retain,
{
}

/// A publisher client counts every message it sends, before the MQTT client
/// sees it.
pub proof fn law_a_publisher_client_counts_every_message(client: ClientView, topic: TopicView)
    requires
        client.identity == IdentityView::Publisher,
        can_send(client, topic),
    ensures
        client_sending(client, topic).delivery.unacked == client.delivery.unacked + 1,
        client_options(client, topic).qos == QoS::AtLeastOnce,
{
}

/// What goes out on the wire reads back as what was published: the topic
/// parses to the topic, and the bytes decode to the metrics, the instant and
/// the `seq`.
pub proof fn law_a_published_batch_reads_back(
    role: Role,
    topic: TopicView,
    batch: Seq<(String, MetricValue, u64)>,
    at: u64,
    number: u8,
)
    requires
        carries_metrics(topic),
        topic::group_of(topic) != Some("STATE"@),
        codec::payload_bytes(
            payload_helpers::built_payload(batch_metrics(batch), at, number),
        ).len() <= u64::MAX,
    ensures
        ({
            let payload = payload_helpers::built_payload(batch_metrics(batch), at, number);
            let message = message_of(role, topic, payload);
            &&& topic::parse_outcome(topic.namespace, message.topic) == Ok::<_, TopicFault>(topic)
            &&& codec::decoded(message.payload) == Some(payload)
        }),
{
    let payload = payload_helpers::built_payload(batch_metrics(batch), at, number);
    assert forall|i: int| 0 <= i < payload.metrics.len() implies
        payload::round_trip::metric_is_valid(#[trigger] payload.metrics[i]) by {
        payload_helpers::law_a_built_metric_is_valid(batch[i].0@, batch[i].1, batch[i].2);
    }
    payload::round_trip::law_decode_gives_back_encode(payload);
    topic::law_parse_gives_back_the_rendered_topic(topic);
}

/// Every publish path writes the same metric: a batch of one holds the
/// metric that a single publish holds.
pub proof fn law_a_batch_of_one_is_a_single_metric(name: String, value: MetricValue, at: u64)
    ensures
        batch_metrics(seq![(name, value, at)]) == seq![
            payload_helpers::built_metric(name@, value, at),
        ],
{
    assert(batch_metrics(seq![(name, value, at)]) =~= seq![
        payload_helpers::built_metric(name@, value, at),
    ]);
}

// ---------------------------------------------------------------------------
// What a publish says, field by field
// ---------------------------------------------------------------------------

/// A birth holds the instant and the device the caller states, and the
/// namespace and the edge node of the client. Its two topics say so.
pub proof fn law_a_birth_holds_what_the_caller_states(
    client: ClientView,
    pair: EdgeNodeView,
    device: Seq<char>,
    at: u64,
)
    requires
        client.identity == IdentityView::EdgeNode(pair),
    ensures
        ({
            let birth = birth_of(client, device, at);
            &&& birth.at == at
            &&& birth.device == device
            &&& birth.namespace == client.namespace
            &&& birth.edge_node == pair
            &&& topic::rendered(nbirth_of(birth)) == client.namespace + "/"@ + pair.group
                + "/NBIRTH/"@ + pair.edge_node_id
            &&& topic::rendered(dbirth_of(birth)) == client.namespace + "/"@ + pair.group
                + "/DBIRTH/"@ + pair.edge_node_id + "/"@ + device
        }),
{
    let birth = birth_of(client, device, at);
    topic::law_a_topic_spells_its_segments(nbirth_of(birth));
    topic::law_a_topic_spells_its_segments(dbirth_of(birth));
    lemma_slashes();
    let head = client.namespace + "/"@ + pair.group;
    assert(head + "/"@ + "NBIRTH"@ + "/"@ + pair.edge_node_id =~= head + "/NBIRTH/"@
        + pair.edge_node_id);
    assert(head + "/"@ + "DBIRTH"@ + "/"@ + pair.edge_node_id + "/"@ + device =~= head
        + "/DBIRTH/"@ + pair.edge_node_id + "/"@ + device);
}

proof fn lemma_slashes()
    ensures
        "/"@ + "NBIRTH"@ + "/"@ == "/NBIRTH/"@,
        "/"@ + "DBIRTH"@ + "/"@ == "/DBIRTH/"@,
        "/"@ + "DDATA"@ + "/"@ == "/DDATA/"@,
{
    reveal_strlit("/");
    reveal_strlit("NBIRTH");
    reveal_strlit("DBIRTH");
    reveal_strlit("DDATA");
    reveal_strlit("/NBIRTH/");
    reveal_strlit("/DBIRTH/");
    reveal_strlit("/DDATA/");
    assert("/"@ + "NBIRTH"@ + "/"@ =~= "/NBIRTH/"@);
    assert("/"@ + "DBIRTH"@ + "/"@ =~= "/DBIRTH/"@);
    assert("/"@ + "DDATA"@ + "/"@ =~= "/DDATA/"@);
}

/// Both births of a device reach the broker stamped with one instant, the
/// one the caller states: whoever decodes them reads it on the payload and on
/// its one metric. The NBIRTH carries the node control, the DBIRTH the device
/// control, and both controls are off. Neither is retained, and both go out
/// at QoS 0.
pub proof fn law_both_births_carry_the_stated_instant(
    client: ClientView,
    pair: EdgeNodeView,
    device: Seq<char>,
    at: u64,
    number: u8,
)
    requires
        client.identity == IdentityView::EdgeNode(pair),
        codec::payload_bytes(
            payload_helpers::birth_payload("Node Control/Rebirth"@, at, 0),
        ).len() <= u64::MAX,
        codec::payload_bytes(
            payload_helpers::birth_payload("Device Control/Rebirth"@, at, number),
        ).len() <= u64::MAX,
    ensures
        ({
            let birth = birth_of(client, device, at);
            let role = client::role_of(client.identity);
            let first = message_of(
                role,
                nbirth_of(birth),
                payload_helpers::birth_payload("Node Control/Rebirth"@, birth.at, 0),
            );
            let second = message_of(
                role,
                dbirth_of(birth),
                payload_helpers::birth_payload("Device Control/Rebirth"@, birth.at, number),
            );
            &&& codec::decoded(first.payload) matches Some(p) && {
                &&& p.timestamp == Some(at)
                &&& p.seq == Some(0u64)
                &&& p.metrics.len() == 1
                &&& p.metrics[0].name == Some("Node Control/Rebirth"@)
                &&& p.metrics[0].timestamp == Some(at)
                &&& p.metrics[0].value == Some(payload::metric::ValueView::DoubleValue(0))
            }
            &&& codec::decoded(second.payload) matches Some(p) && {
                &&& p.timestamp == Some(at)
                &&& p.seq == Some(number as u64)
                &&& p.metrics.len() == 1
                &&& p.metrics[0].name == Some("Device Control/Rebirth"@)
                &&& p.metrics[0].timestamp == Some(at)
                &&& p.metrics[0].value == Some(payload::metric::ValueView::DoubleValue(0))
            }
            &&& first.qos == QoS::AtMostOnce && !first.retain
            &&& second.qos == QoS::AtMostOnce && !second.retain
        }),
{
    payload_helpers::law_a_birth_reads_back("Node Control/Rebirth"@, at, 0);
    payload_helpers::law_a_birth_reads_back("Device Control/Rebirth"@, at, number);
}

/// A metric the caller publishes reaches the broker as it is: whoever decodes
/// the message reads one metric with that name, that instant and exactly that
/// value, under a payload with the same instant and the `seq` that was drawn.
/// A number keeps every bit, a text every character.
pub proof fn law_a_published_metric_reads_back(
    role: Role,
    topic: TopicView,
    name: Seq<char>,
    value: MetricValue,
    at: u64,
    number: u8,
)
    requires
        codec::payload_bytes(
            payload_helpers::built_payload(
                seq![payload_helpers::built_metric(name, value, at)],
                at,
                number,
            ),
        ).len() <= u64::MAX,
    ensures
        ({
            let message = message_of(
                role,
                topic,
                payload_helpers::built_payload(
                    seq![payload_helpers::built_metric(name, value, at)],
                    at,
                    number,
                ),
            );
            &&& codec::decoded(message.payload) matches Some(p) && {
                &&& p.timestamp == Some(at)
                &&& p.seq == Some(number as u64)
                &&& p.uuid is None
                &&& p.body is None
                &&& p.metrics.len() == 1
                &&& p.metrics[0].name == Some(name)
                &&& p.metrics[0].timestamp == Some(at)
                &&& p.metrics[0].alias is None
                &&& value matches MetricValue::Float(bits) ==> p.metrics[0].value == Some(
                    payload::metric::ValueView::DoubleValue(bits),
                ) && p.metrics[0].datatype == Some(10u32)
                &&& value matches MetricValue::Int(n) ==> p.metrics[0].value == Some(
                    payload::metric::ValueView::LongValue(n),
                ) && p.metrics[0].datatype == Some(8u32)
                &&& value matches MetricValue::Bool(flag) ==> p.metrics[0].value == Some(
                    payload::metric::ValueView::BooleanValue(flag),
                ) && p.metrics[0].datatype == Some(11u32)
                &&& value matches MetricValue::String(text) ==> p.metrics[0].value == Some(
                    payload::metric::ValueView::StringValue(text@),
                ) && p.metrics[0].datatype == Some(12u32)
            }
            &&& message.topic == topic::rendered(topic)
        }),
{
    let built = payload_helpers::built_metric(name, value, at);
    let payload = payload_helpers::built_payload(seq![built], at, number);
    payload_helpers::law_a_built_metric_is_valid(name, value, at);
    assert forall|i: int| 0 <= i < payload.metrics.len() implies
        payload::round_trip::metric_is_valid(#[trigger] payload.metrics[i]) by {
        assert(payload.metrics[i] == built);
    }
    payload::round_trip::law_decode_gives_back_encode(payload);
}

/// A batch holds one metric for each entry, in order, with the name, the
/// value and the instant of that entry.
pub proof fn law_a_batch_keeps_every_entry(batch: Seq<(String, MetricValue, u64)>, i: int)
    requires
        0 <= i < batch.len(),
    ensures
        batch_metrics(batch).len() == batch.len(),
        batch_metrics(batch)[i].name == Some(batch[i].0@),
        batch_metrics(batch)[i].timestamp == Some(batch[i].2),
        match batch[i].1 {
            MetricValue::Float(bits) => batch_metrics(batch)[i].value == Some(
                payload::metric::ValueView::DoubleValue(bits),
            ) && batch_metrics(batch)[i].datatype == Some(10u32),
            MetricValue::Int(n) => batch_metrics(batch)[i].value == Some(
                payload::metric::ValueView::LongValue(n),
            ) && batch_metrics(batch)[i].datatype == Some(8u32),
            MetricValue::Bool(flag) => batch_metrics(batch)[i].value == Some(
                payload::metric::ValueView::BooleanValue(flag),
            ) && batch_metrics(batch)[i].datatype == Some(11u32),
            MetricValue::String(text) => batch_metrics(batch)[i].value == Some(
                payload::metric::ValueView::StringValue(text@),
            ) && batch_metrics(batch)[i].datatype == Some(12u32),
        },
        batch_metrics(batch)[i].alias is None,
        batch_metrics(batch)[i].is_historical is None,
        batch_metrics(batch)[i].is_transient is None,
        batch_metrics(batch)[i].is_null is None,
        batch_metrics(batch)[i].metadata is None,
        batch_metrics(batch)[i].properties is None,
{
}

/// Data for an edge node the caller names goes out under that name: a draft
/// exists when all three identifiers can stand in a topic, and then its topic
/// reads `{namespace}/{group}/DDATA/{node}/{device}`, with the metrics and
/// the instant as they were given. Otherwise the first identifier that cannot
/// is named, in the order group, edge node, device.
pub proof fn law_data_goes_out_under_the_name_the_caller_gives(
    namespace: Seq<char>,
    group: Seq<char>,
    node: Seq<char>,
    device: Seq<char>,
    metrics: Seq<MetricView>,
    at: u64,
)
    ensures
        ({
            let outcome = data_outcome(namespace, group, node, device, metrics, at);
            &&& outcome is Ok <==> ids::is_usable(group) && ids::is_usable(node)
                && ids::is_usable(device)
            &&& outcome matches Ok(draft) ==> {
                &&& topic::rendered(draft.topic) == namespace + "/"@ + group + "/DDATA/"@ + node
                    + "/"@ + device
                &&& draft.topic.namespace == namespace
                &&& draft.topic.message_type == MessageType::DDATA
                &&& topic::group_of(draft.topic) == Some(group)
                &&& topic::node_of(draft.topic) == Some(node)
                &&& topic::device_of(draft.topic) == Some(device)
                &&& draft.metrics == metrics
                &&& draft.at == at
            }
            &&& !ids::is_usable(group) ==> outcome == Err::<DraftView, _>(
                TopicFault::Invalid(ids::refusal("group id"@, group)),
            )
            &&& ids::is_usable(group) && !ids::is_usable(node) ==> outcome == Err::<DraftView, _>(
                TopicFault::Invalid(ids::refusal("edge node id"@, node)),
            )
            &&& ids::is_usable(group) && ids::is_usable(node) && !ids::is_usable(device)
                ==> outcome == Err::<DraftView, _>(
                TopicFault::Invalid(ids::refusal("device id"@, device)),
            )
        }),
{
    if let Ok(draft) = data_outcome(namespace, group, node, device, metrics, at) {
        topic::law_a_topic_spells_its_segments(draft.topic);
        lemma_slashes();
        let head = namespace + "/"@ + group;
        assert(head + "/"@ + "DDATA"@ + "/"@ + node + "/"@ + device =~= head + "/DDATA/"@ + node
            + "/"@ + device);
    }
}

/// A topic that names an edge node takes metrics as they are, and a topic
/// that names none takes no metric.
pub proof fn law_a_topic_takes_metrics_as_they_are(
    topic: TopicView,
    metrics: Seq<MetricView>,
    at: u64,
)
    ensures
        topic.address is Host ==> draft_outcome(topic, metrics, at) == Err::<DraftView, _>(
            TopicFault::Invalid(
                topic::rendered(topic) + " names no edge node, so it holds no seq count"@,
            ),
        ),
        !(topic.address is Host) ==> (draft_outcome(topic, metrics, at) matches Ok(draft)
            && draft.topic == topic && draft.metrics == metrics && draft.at == at),
{
}

/// A draft is the one that was asked for, and an error names the fault.
pub proof fn law_a_draft_is_what_was_asked_for(
    draft: Result<Draft, SparkplugError>,
    outcome: Result<DraftView, TopicFault>,
)
    requires
        is_draft(draft, outcome),
    ensures
        draft is Ok <==> outcome is Ok,
        draft matches Ok(draft) ==> draft@ == outcome->Ok_0,
        draft matches Err(error) ==> topic::fault_of(error) == Some(outcome->Err_0),
{
}

/// A message says what its payload, its topic and its role say: the text of
/// the topic, the bytes of the payload, and how such a message goes out.
pub proof fn law_a_message_carries_its_topic_and_its_payload(
    role: Role,
    topic: TopicView,
    payload: PayloadView,
)
    ensures
        message_of(role, topic, payload).topic == topic::rendered(topic),
        message_of(role, topic, payload).payload == codec::payload_bytes(payload),
        message_of(role, topic, payload).retain <==> topic.message_type == MessageType::STATE,
        message_of(role, topic, payload).qos == QoS::AtLeastOnce <==> role == Role::Publisher
            || topic.message_type == MessageType::NDEATH || topic.message_type
            == MessageType::STATE,
{
}

/// What a message holds is what its fields hold.
pub proof fn law_a_message_shows_its_fields(message: Message)
    ensures
        message@.topic == message.topic@,
        message@.qos == message.qos,
        message@.retain == message.retain,
        message@.payload == message.payload@,
{
}

/// The number a message draws: 0 for an NBIRTH, and for every other message
/// one more than the last of its edge node, in one byte.
pub proof fn law_a_message_draws_the_next_number(locks: Locks, topic: TopicView)
    ensures
        topic.message_type == MessageType::NBIRTH ==> drawn(locks, topic).number == 0,
        topic.message_type != MessageType::NBIRTH ==> drawn(locks, topic).number == (
        sequence::count_of(locks, pair_of(topic)) + 1) % 256,
        drawn(locks, topic).previous == sequence::count_of(locks, pair_of(topic)),
        drawn(locks, topic).edge_node == pair_of(topic),
        topic::group_of(topic) matches Some(group) ==> pair_of(topic).group == group,
        topic::node_of(topic) matches Some(node) ==> pair_of(topic).edge_node_id == node,
{
}

/// The DBIRTH of a birth draws one more than its NBIRTH did, in one byte,
/// for the same edge node, and would put back what the NBIRTH found.
pub proof fn law_a_dbirth_draws_the_number_behind_its_nbirth(
    client: ClientView,
    in_flight: InFlightView,
    birth: BirthView,
)
    ensures
        holding_next(client, in_flight, birth).reservation.number == (in_flight.reservation.number
            + 1) % 256,
        holding_next(client, in_flight, birth).reservation.previous
            == in_flight.reservation.previous,
        holding_next(client, in_flight, birth).reservation.edge_node
            == in_flight.reservation.edge_node,
        client_continuing(client, in_flight, birth).locks == client.locks,
{
}

/// What a publish moves: the lock of its edge node, and one outstanding
/// publish when the broker will acknowledge it. It touches nothing else of
/// the client.
pub proof fn law_a_publish_moves_one_lock_and_one_count(client: ClientView, topic: TopicView)
    requires
        can_send(client, topic),
    ensures
        ({
            let counted = client.identity == IdentityView::Publisher || topic.message_type
                == MessageType::NDEATH || topic.message_type == MessageType::STATE;
            let sending = client_sending(client, topic);
            &&& counted ==> client.delivery.unacked < u32::MAX
            &&& counted ==> sending.delivery.unacked == client.delivery.unacked + 1
            &&& !counted ==> sending.delivery.unacked == client.delivery.unacked
            &&& sending.delivery.lost == client.delivery.lost
            &&& sending.delivery.reported == client.delivery.reported
            &&& sending.delivery.generation == client.delivery.generation
            &&& sequence::is_held(sending.locks, pair_of(topic))
            &&& sequence::count_of(sending.locks, pair_of(topic)) == sequence::count_of(
                client.locks,
                pair_of(topic),
            )
            &&& holding(client, topic).reservation == drawn(client.locks, topic)
            &&& holding(client, topic).generation == if counted {
                Some(client.delivery.generation)
            } else {
                None
            }
            &&& sending.health == client.health
            &&& sending.event_loop == client.event_loop
        }),
{
}

/// What the end of a publish moves: a message that was taken leaves its
/// number as the count, one that was not leaves the number before it, and
/// either way the lock is free. Only a refused publish that was counted, with
/// no disconnect since, takes its count back.
pub proof fn law_the_end_of_a_publish_frees_its_lock(
    client: ClientView,
    in_flight: InFlightView,
    taken: bool,
)
    ensures
        ({
            let after = client_settled(client, in_flight, taken);
            let pair = in_flight.reservation.edge_node;
            let rolled_back = !taken && in_flight.generation == Some(client.delivery.generation)
                && client.delivery.unacked > 0;
            &&& !sequence::is_held(after.locks, pair)
            &&& taken ==> sequence::count_of(after.locks, pair) == in_flight.reservation.number
            &&& !taken ==> sequence::count_of(after.locks, pair) == in_flight.reservation.previous
            &&& after.delivery.unacked == if rolled_back {
                client.delivery.unacked - 1
            } else {
                client.delivery.unacked as int
            }
            &&& after.delivery.lost == client.delivery.lost
            &&& after.delivery.reported == client.delivery.reported
            &&& after.delivery.generation == client.delivery.generation
            &&& after.health == client.health
            &&& after.event_loop == client.event_loop
        }),
{
}

/// What the MQTT client said reaches the caller.
pub proof fn law_a_refusal_reaches_the_caller(sent: Result<(), rumqttc::ClientError>)
    ensures
        sent is Ok <==> sent_outcome(sent) is Ok,
        sent matches Err(error) ==> sent_outcome(sent) == Err::<(), _>(
            SparkplugError::Publish(error),
        ),
{
}

/// A publish is counted exactly when it is to be: one more outstanding, and
/// the generation it was counted in kept. Its end changes a count only when
/// it was counted and refused, with no disconnect since.
pub proof fn law_a_count_follows_the_options(
    d: DeliveryView,
    options: WireOptions,
    generation: Option<u64>,
)
    ensures
        options.counted && d.unacked < u32::MAX ==> delivery_counted(d, options) == (
        DeliveryView { unacked: (d.unacked + 1) as u32, ..d }),
        !options.counted ==> delivery_counted(d, options) == d,
        generation_counted(d, options) == if options.counted {
            Some(d.generation)
        } else {
            None
        },
        delivery_settled(d, generation, true) == d,
        generation == Some(d.generation) && d.unacked > 0 ==> delivery_settled(
            d,
            generation,
            false,
        ) == (DeliveryView { unacked: (d.unacked - 1) as u32, ..d }),
        generation != Some(d.generation) || d.unacked == 0 ==> delivery_settled(
            d,
            generation,
            false,
        ) == d,
{
}

/// A message can be sent unless it is to be counted and the count is full.
pub proof fn law_only_a_full_count_stops_a_message(client: ClientView, topic: TopicView)
    ensures
        can_send(client, topic) <==> client.delivery.unacked < u32::MAX || (!(client.identity
            == IdentityView::Publisher) && topic.message_type != MessageType::NDEATH
            && topic.message_type != MessageType::STATE),
        carries_metrics(topic) <==> topic::is_well_formed(topic) && !(topic.address is Host),
        client_options(client, topic) == types::options_of(
            client::role_of(client.identity),
            topic.message_type,
        ),
{
}

/// A birth that goes on to its DBIRTH keeps its lock, and counts the DBIRTH
/// when the broker will acknowledge it, which only a publisher client's
/// message is.
pub proof fn law_a_birth_that_goes_on_moves_one_count_at_most(
    client: ClientView,
    in_flight: InFlightView,
    birth: BirthView,
)
    requires
        can_send(client, dbirth_of(birth)),
    ensures
        ({
            let after = client_continuing(client, in_flight, birth);
            let counted = client.identity == IdentityView::Publisher;
            &&& counted ==> after.delivery.unacked == client.delivery.unacked + 1
            &&& !counted ==> after.delivery == client.delivery
            &&& after.delivery.lost == client.delivery.lost
            &&& after.delivery.reported == client.delivery.reported
            &&& after.delivery.generation == client.delivery.generation
            &&& after.locks == client.locks
            &&& after.health == client.health
            &&& after.event_loop == client.event_loop
            &&& holding_next(client, in_flight, birth).generation == if counted {
                Some(client.delivery.generation)
            } else {
                None
            }
        }),
{
}

/// The end of a publish moves the lock of its own edge node alone, whatever
/// it holds and however it ends.
pub proof fn law_the_end_of_a_publish_moves_no_other_lock(
    client: ClientView,
    in_flight: InFlightView,
    taken: bool,
    other: EdgeNodeView,
)
    requires
        ids::is_usable_pair(in_flight.reservation.edge_node),
        ids::is_usable_pair(other),
        other != in_flight.reservation.edge_node,
    ensures
        sequence::lock_of(client_settled(client, in_flight, taken).locks, other)
            == sequence::lock_of(client.locks, other),
{
    sequence::law_edge_nodes_count_apart(client.locks, in_flight.reservation, other);
}

} // verus!
