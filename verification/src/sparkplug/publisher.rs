//! A publish path that speaks for one asset as both edge node and device.
//!
//! It counts nothing and confirms nothing, and it checks no segment. Prefer
//! [`crate::SparkplugClient`], which does all three.

use crate::error::SparkplugError;
use crate::payload::codec;
use crate::payload::metric::{Value, ValueView};
use crate::payload::{self, Metric, MetricView};
use crate::sparkplug::payload_helpers;
use crate::sparkplug::types::{self, Timestamp};
use crate::text;
use std::time::SystemTime;
use vstd::prelude::*;

verus! {

/// The metrics that were read at one instant.
#[derive(Debug)]
pub struct TimestampToMetrics {
    timestamp: Timestamp,
    metrics: Vec<Metric>,
}

/// What a [`TimestampToMetrics`] holds.
#[verifier::ext_equal]
pub struct FrameView {
    pub at: u64,
    pub metrics: Seq<MetricView>,
}

impl View for TimestampToMetrics {
    type V = FrameView;

    closed spec fn view(&self) -> FrameView {
        FrameView { at: self.timestamp.0, metrics: payload::metric_views(self.metrics@) }
    }
}

impl TimestampToMetrics {
    /// Put metrics under the instant they were read at.
    #[must_use]
    pub fn new(timestamp: Timestamp, metrics: Vec<Metric>) -> (frame: Self)
        ensures
            frame@ == (FrameView {
                at: timestamp.0,
                metrics: payload::metric_views(metrics@),
            }),
    {
        TimestampToMetrics { timestamp, metrics }
    }

    /// The instant the metrics were read at.
    #[must_use]
    pub fn timestamp(&self) -> (timestamp: Timestamp)
        ensures
            timestamp.0 == self@.at,
    {
        self.timestamp
    }

    /// The metrics.
    #[must_use]
    pub fn metrics(&self) -> (metrics: &Vec<Metric>)
        ensures
            payload::metric_views(metrics@) == self@.metrics,
    {
        &self.metrics
    }
}

/// A topic, and the bytes to publish on it.
#[derive(Debug, PartialEq, Eq)]
pub struct TopicAndPayload {
    pub topic: String,
    pub payload: Vec<u8>,
}

/// What a [`TopicAndPayload`] holds.
#[verifier::ext_equal]
pub struct TopicAndPayloadView {
    pub topic: Seq<char>,
    pub payload: Seq<u8>,
}

impl View for TopicAndPayload {
    type V = TopicAndPayloadView;

    open spec fn view(&self) -> TopicAndPayloadView {
        TopicAndPayloadView { topic: self.topic@, payload: self.payload@ }
    }
}

/// The views of a list of messages.
pub open spec fn message_views(messages: Seq<TopicAndPayload>) -> Seq<TopicAndPayloadView> {
    messages.map_values(|message: TopicAndPayload| message@)
}

/// A metric as it goes out with a frame: named, stamped with the instant of
/// the frame, and with its value and datatype kept.
pub open spec fn framed(metric: MetricView, at: u64) -> MetricView {
    MetricView {
        name: Some(
            match metric.name {
                Some(name) => name,
                None => seq![],
            },
        ),
        timestamp: Some(at),
        datatype: metric.datatype,
        value: metric.value,
        ..payload::no_metric()
    }
}

/// The topic of the data of an asset.
pub open spec fn data_topic(version: Seq<char>, group: Seq<char>, asset: Seq<char>) -> Seq<char> {
    text::join(seq![version, group, "DDATA"@, asset, asset])
}

/// The message that one frame becomes.
pub open spec fn data_message(
    version: Seq<char>,
    group: Seq<char>,
    asset: Seq<char>,
    frame: FrameView,
) -> TopicAndPayloadView {
    TopicAndPayloadView {
        topic: data_topic(version, group, asset),
        payload: codec::payload_bytes(
            payload_helpers::built_payload(
                frame.metrics.map_values(|metric: MetricView| framed(metric, frame.at)),
                frame.at,
                1,
            ),
        ),
    }
}

/// The node birth of an asset.
pub open spec fn node_birth(
    version: Seq<char>,
    group: Seq<char>,
    asset: Seq<char>,
    at: u64,
) -> TopicAndPayloadView {
    TopicAndPayloadView {
        topic: text::join(seq![version, group, "NBIRTH"@, asset]),
        payload: codec::payload_bytes(
            payload_helpers::birth_payload("Node Control/Rebirth"@, at, 0),
        ),
    }
}

/// The device birth of an asset.
pub open spec fn device_birth(
    version: Seq<char>,
    group: Seq<char>,
    asset: Seq<char>,
    at: u64,
) -> TopicAndPayloadView {
    TopicAndPayloadView {
        topic: text::join(seq![version, group, "DBIRTH"@, asset, asset]),
        payload: codec::payload_bytes(
            payload_helpers::birth_payload("Device Control/Rebirth"@, at, 0),
        ),
    }
}

/// Both births of an asset, in the order they go out.
pub open spec fn births(
    version: Seq<char>,
    group: Seq<char>,
    asset: Seq<char>,
    node_at: u64,
    device_at: u64,
) -> Seq<TopicAndPayloadView> {
    seq![node_birth(version, group, asset, node_at), device_birth(version, group, asset, device_at)]
}

/// Which message goes out behind message `index` of `count`, once the MQTT
/// client has taken that one.
pub open spec fn index_behind(count: nat, index: nat) -> Option<nat> {
    if index + 1 < count {
        Some(index + 1)
    } else {
        None
    }
}

/// The messages that are handed to the MQTT client, from message `index` of
/// `count` on, where `takes` says which it takes and which it refuses.
pub open spec fn handed_over(count: nat, index: nat, takes: spec_fn(nat) -> bool) -> Seq<nat>
    decreases count - index,
{
    if !takes(index) {
        seq![index]
    } else {
        match index_behind(count, index) {
            Some(next) => seq![index] + handed_over(count, next, takes),
            None => seq![index],
        }
    }
}

/// Decide what follows once the MQTT client has taken message `index`, or
/// refused it: the next message, or none behind the last.
///
/// # Errors
///
/// Returns [`SparkplugError::Publish`] when the client refused the message.
/// No message behind it goes out.
pub fn next_message(
    messages: &Vec<TopicAndPayload>,
    index: usize,
    sent: Result<(), rumqttc::ClientError>,
) -> (next: Result<Option<usize>, SparkplugError>)
    requires
        index < messages@.len(),
    ensures
        match sent {
            Ok(()) => match index_behind(messages@.len(), index as nat) {
                Some(behind) => next matches Ok(Some(i)) && i == behind,
                None => next matches Ok(None),
            },
            Err(refused) => next matches Err(SparkplugError::Publish(error)) && error == refused,
        },
{
    match sent {
        Ok(()) => if index < messages.len() - 1 {
            Ok(Some(index + 1))
        } else {
            Ok(None)
        },
        Err(refused) => Err(SparkplugError::Publish(refused)),
    }
}

/// Messages go out in order, each once, and none behind one that the MQTT
/// client refuses: all but the last that is handed over are taken, and it
/// ends short of the last message only where that one is refused.
pub proof fn law_nothing_goes_out_behind_a_refusal(
    count: nat,
    index: nat,
    takes: spec_fn(nat) -> bool,
)
    requires
        index < count,
    ensures
        1 <= handed_over(count, index, takes).len() <= count - index,
        forall|i: int|
            0 <= i < handed_over(count, index, takes).len() ==> #[trigger] handed_over(
                count,
                index,
                takes,
            )[i] == index + i,
        forall|i: int|
            0 <= i < handed_over(count, index, takes).len() - 1 ==> takes(
                #[trigger] handed_over(count, index, takes)[i],
            ),
        handed_over(count, index, takes).len() < count - index ==> !takes(
            handed_over(count, index, takes).last(),
        ),
    decreases count - index,
{
    if takes(index) && index + 1 < count {
        law_nothing_goes_out_behind_a_refusal(count, index + 1, takes);
        let behind = handed_over(count, index + 1, takes);
        let all = handed_over(count, index, takes);
        assert(all == seq![index] + behind);
        assert forall|i: int| 0 <= i < all.len() implies #[trigger] all[i] == index + i by {
            if i > 0 {
                assert(all[i] == behind[i - 1]);
            }
        }
        assert forall|i: int| 0 <= i < all.len() - 1 implies takes(#[trigger] all[i]) by {
            if i > 0 {
                assert(all[i] == behind[i - 1]);
            }
        }
        assert(all.last() == behind.last());
    }
}

/// Whether a metric asks for a rebirth: it is the rebirth control, and it
/// holds the single-precision number one.
pub open spec fn asks_for_rebirth(metric: MetricView) -> bool {
    metric.name == Some("Node Control/Rebirth"@) && metric.value == Some(
        ValueView::FloatValue(0x3f80_0000),
    )
}

/// Whether a message is a rebirth request for an asset: its topic names the
/// asset fourth, and its payload holds a metric that asks for it.
pub open spec fn is_rebirth_request(topic: Seq<char>, payload: Seq<u8>, asset: Seq<char>) -> bool {
    let parts = text::split(topic);
    &&& parts.len() >= 4
    &&& parts[3] == asset
    &&& codec::decoded(payload) matches Some(read) && exists|i: int|
        0 <= i < read.metrics.len() && asks_for_rebirth(#[trigger] read.metrics[i])
}

/// Writes the messages of one asset.
#[derive(Debug)]
pub struct SparkplugPublisher {
    version: String,
}

impl View for SparkplugPublisher {
    type V = Seq<char>;

    /// The first segment of every topic.
    closed spec fn view(&self) -> Seq<char> {
        self.version@
    }
}

impl Clone for SparkplugPublisher {
    fn clone(&self) -> (copy: Self)
        ensures
            copy@ == self@,
    {
        SparkplugPublisher { version: self.version.clone() }
    }
}

impl SparkplugPublisher {
    /// Build a publisher whose topics start with `version`.
    #[must_use]
    pub fn new(version: &str) -> (publisher: Self)
        ensures
            publisher@ == version@,
    {
        SparkplugPublisher { version: version.to_owned() }
    }

    /// Write one data message for each frame, in order.
    #[must_use]
    pub fn publish_metrics(
        &self,
        group_id: &str,
        asset_id: &str,
        metrics_data: Vec<TimestampToMetrics>,
    ) -> (messages: Vec<TopicAndPayload>)
        ensures
            message_views(messages@) == metrics_data@.map_values(
                |frame: TimestampToMetrics| data_message(self@, group_id@, asset_id@, frame@),
            ),
    {
        let mut messages: Vec<TopicAndPayload> = Vec::new();
        let ghost frames = metrics_data@;
        let ghost written = |frame: TimestampToMetrics|
            data_message(self@, group_id@, asset_id@, frame@);
        for frame in iter: metrics_data
            invariant
                iter.seq() == frames,
                written == (|frame: TimestampToMetrics|
                    data_message(self@, group_id@, asset_id@, frame@)),
                message_views(messages@) == frames.take(iter.index() as int).map_values(written),
        {
            let ghost done = iter.index() as int;
            let ghost before = messages@;
            let at = frame.timestamp;
            let metrics = frame_metrics(frame.metrics, at);
            let payload = payload_helpers::create_payload(metrics, at).encode_to_vec();
            let topic = self.topic("DDATA", group_id, asset_id, true);
            messages.push(TopicAndPayload { topic, payload });
            assert(message_views(messages@) =~= message_views(before).push(
                written(frames[done]),
            ));
            assert(frames.take(done + 1).map_values(written) =~= frames.take(done).map_values(
                written,
            ).push(written(frames[done])));
        }
        assert(frames.take(frames.len() as int) =~= frames);
        messages
    }

    /// Write the node birth and the device birth of an asset, each stamped
    /// with the instant the clock shows as it is written.
    #[must_use]
    pub fn publish_births(&self, group_id: &str, asset_id: &str) -> (messages: Vec<TopicAndPayload>)
        ensures
            exists|node: SystemTime, device: SystemTime|
                message_views(messages@) == births(
                    self@,
                    group_id@,
                    asset_id@,
                    #[trigger] types::instant_at(node),
                    #[trigger] types::instant_at(device),
                ),
    {
        let node_at = Timestamp::now();
        let device_at = Timestamp::now();
        self.publish_births_at(group_id, asset_id, node_at, device_at)
    }

    /// Write the node birth and the device birth of an asset, each stamped
    /// with the instant the caller states for it.
    #[must_use]
    pub fn publish_births_at(
        &self,
        group_id: &str,
        asset_id: &str,
        node_at: Timestamp,
        device_at: Timestamp,
    ) -> (messages: Vec<TopicAndPayload>)
        ensures
            message_views(messages@) == births(
                self@,
                group_id@,
                asset_id@,
                node_at.0,
                device_at.0,
            ),
    {
        let mut messages: Vec<TopicAndPayload> = Vec::new();
        messages.push(
            TopicAndPayload {
                topic: self.topic("NBIRTH", group_id, asset_id, false),
                payload: payload_helpers::create_birth_certificate(node_at).encode_to_vec(),
            },
        );
        messages.push(
            TopicAndPayload {
                topic: self.topic("DBIRTH", group_id, asset_id, true),
                payload: payload_helpers::create_device_birth_certificate(device_at).encode_to_vec(),
            },
        );
        assert(message_views(messages@) =~= births(
            self@,
            group_id@,
            asset_id@,
            node_at.0,
            device_at.0,
        ));
        messages
    }

    /// Whether a message is a rebirth request for `asset_id`.
    #[must_use]
    pub fn handle_command(&self, topic: &str, payload: &[u8], asset_id: &str) -> (requested: bool)
        ensures
            requested == is_rebirth_request(topic@, payload@, asset_id@),
    {
        let parts = text::split_text(topic);
        proof {
            assert(text::split(topic@).len() == parts@.len());
            assert forall|i: int| 0 <= i < parts@.len() implies #[trigger] parts@[i]@
                == text::split(topic@)[i] by {
                assert(text::parts_of(parts@)[i] == parts@[i]@);
            }
        }
        if parts.len() < 4 {
            return false;
        }
        if !text::same_text(parts[3], asset_id) {
            return false;
        }
        let read = match payload::decode_payload(payload) {
            Ok(read) => read,
            Err(_) => return false,
        };
        let mut i: usize = 0;
        while i < read.metrics.len()
            invariant
                i <= read.metrics.len(),
                text::split(topic@).len() >= 4,
                text::split(topic@)[3] == asset_id@,
                codec::decoded(payload@) == Some(read@),
                forall|j: int| 0 <= j < i ==> !asks_for_rebirth(#[trigger] read@.metrics[j]),
            decreases read.metrics.len() - i,
        {
            assert(read@.metrics[i as int] == read.metrics@[i as int]@);
            if requests_rebirth(&read.metrics[i]) {
                return true;
            }
            i += 1;
        }
        false
    }

    /// A topic of an asset, with the asset once more as the device.
    fn topic(&self, name: &str, group_id: &str, asset_id: &str, device: bool) -> (topic: String)
        ensures
            topic@ == text::join(
                if device {
                    seq![self@, group_id@, name@, asset_id@, asset_id@]
                } else {
                    seq![self@, group_id@, name@, asset_id@]
                },
            ),
    {
        let mut topic = self.version.clone();
        topic.append("/");
        topic.append(group_id);
        topic.append("/");
        topic.append(name);
        topic.append("/");
        topic.append(asset_id);
        let ghost one = seq![self@];
        let ghost four = one.push(group_id@).push(name@).push(asset_id@);
        proof {
            text::lemma_join_push(one, group_id@);
            text::lemma_join_push(one.push(group_id@), name@);
            text::lemma_join_push(one.push(group_id@).push(name@), asset_id@);
            text::lemma_join_push(four, asset_id@);
            assert(four =~= seq![self@, group_id@, name@, asset_id@]);
            assert(four.push(asset_id@) =~= seq![self@, group_id@, name@, asset_id@, asset_id@]);
        }
        if device {
            topic.append("/");
            topic.append(asset_id);
        }
        topic
    }
}

/// Bring the metrics of a frame into the form they go out in.
fn frame_metrics(metrics: Vec<Metric>, at: Timestamp) -> (sent: Vec<Metric>)
    ensures
        payload::metric_views(sent@) == payload::metric_views(metrics@).map_values(
            |metric: MetricView| framed(metric, at.0),
        ),
{
    let mut sent: Vec<Metric> = Vec::new();
    let ghost all = metrics@;
    let ghost views = payload::metric_views(all);
    for metric in iter: metrics
        invariant
            iter.seq() == all,
            views == payload::metric_views(all),
            payload::metric_views(sent@) == views.take(iter.index() as int).map_values(
                |metric: MetricView| framed(metric, at.0),
            ),
    {
        let ghost done = iter.index() as int;
        let ghost before = sent@;
        let ghost frame = |metric: MetricView| framed(metric, at.0);
        let mut next = Metric::default();
        next.name = Some(
            match metric.name {
                Some(name) => name,
                None => {
                    let name = String::new();
                    assert(name@ =~= seq![]);
                    name
                },
            },
        );
        next.value = metric.value;
        next.datatype = metric.datatype;
        next.timestamp = Some(at.0);
        sent.push(next);
        assert(payload::metric_views(sent@) =~= payload::metric_views(before).push(
            frame(views[done]),
        ));
        assert(views.take(done + 1).map_values(frame) =~= views.take(done).map_values(frame).push(
            frame(views[done]),
        ));
    }
    assert(views.take(views.len() as int) =~= views);
    sent
}

/// Whether a metric asks for a rebirth.
fn requests_rebirth(metric: &Metric) -> (requested: bool)
    ensures
        requested == asks_for_rebirth(metric@),
{
    let named = match &metric.name {
        Some(name) => text::same_text(name.as_str(), "Node Control/Rebirth"),
        None => false,
    };
    let set = match &metric.value {
        Some(Value::FloatValue(bits)) => bits.0 == 0x3f80_0000,
        _ => false,
    };
    named && set
}

// ---------------------------------------------------------------------------
// What the messages of an asset say
// ---------------------------------------------------------------------------

/// A list of messages is shown message by message, in order, and each message
/// by its fields.
pub proof fn law_messages_are_shown_in_order(messages: Seq<TopicAndPayload>, i: int)
    requires
        0 <= i < messages.len(),
    ensures
        message_views(messages).len() == messages.len(),
        message_views(messages)[i].topic == messages[i].topic@,
        message_views(messages)[i].payload == messages[i].payload@,
{
}

/// A metric that goes out with a frame keeps its value and its datatype, and
/// its name, or an empty one, and takes the instant of the frame. Nothing
/// else of it goes out.
pub proof fn law_a_framed_metric_keeps_its_value(metric: MetricView, at: u64)
    ensures
        framed(metric, at).value == metric.value,
        framed(metric, at).datatype == metric.datatype,
        framed(metric, at).timestamp == Some(at),
        metric.name is Some ==> framed(metric, at).name == metric.name,
        metric.name is None ==> framed(metric, at).name == Some(Seq::<char>::empty()),
        framed(metric, at).alias is None,
        framed(metric, at).is_historical is None,
        framed(metric, at).is_transient is None,
        framed(metric, at).is_null is None,
        framed(metric, at).metadata is None,
        framed(metric, at).properties is None,
{
}

/// The data of an asset goes out on `{version}/{group}/DDATA/{asset}/{asset}`,
/// and whoever decodes it reads every metric of the frame in order, with its
/// value as it was and the instant of the frame.
pub proof fn law_a_frame_reads_back(
    version: Seq<char>,
    group: Seq<char>,
    asset: Seq<char>,
    frame: FrameView,
)
    requires
        data_message(version, group, asset, frame).payload.len() <= u64::MAX,
        forall|i: int|
            0 <= i < frame.metrics.len() ==> payload::round_trip::metric_is_valid(
                framed(#[trigger] frame.metrics[i], frame.at),
            ),
    ensures
        data_message(version, group, asset, frame).topic == version + "/"@ + group + "/"@
            + "DDATA"@ + "/"@ + asset + "/"@ + asset,
        codec::decoded(data_message(version, group, asset, frame).payload) matches Some(p) && {
            &&& p.timestamp == Some(frame.at)
            &&& p.seq == Some(1u64)
            &&& p.uuid is None
            &&& p.body is None
            &&& p.metrics.len() == frame.metrics.len()
            &&& forall|i: int|
                0 <= i < frame.metrics.len() ==> {
                    &&& (#[trigger] p.metrics[i]).value == frame.metrics[i].value
                    &&& p.metrics[i].datatype == frame.metrics[i].datatype
                    &&& p.metrics[i].timestamp == Some(frame.at)
                    &&& frame.metrics[i].name is Some ==> p.metrics[i].name
                        == frame.metrics[i].name
                }
        },
{
    lemma_device_topic(version, group, "DDATA"@, asset);
    let sent = frame.metrics.map_values(|metric: MetricView| framed(metric, frame.at));
    let built = payload_helpers::built_payload(sent, frame.at, 1);
    assert forall|i: int| 0 <= i < built.metrics.len() implies
        payload::round_trip::metric_is_valid(#[trigger] built.metrics[i]) by {
        assert(payload::round_trip::metric_is_valid(framed(frame.metrics[i], frame.at)));
    }
    payload::round_trip::law_decode_gives_back_encode(built);
}

proof fn lemma_device_topic(
    version: Seq<char>,
    group: Seq<char>,
    name: Seq<char>,
    asset: Seq<char>,
)
    ensures
        text::join(seq![version, group, name, asset]) == version + "/"@ + group + "/"@ + name
            + "/"@ + asset,
        text::join(seq![version, group, name, asset, asset]) == version + "/"@ + group + "/"@
            + name + "/"@ + asset + "/"@ + asset,
{
    let one = seq![version];
    let four = one.push(group).push(name).push(asset);
    text::lemma_join_push(one, group);
    text::lemma_join_push(one.push(group), name);
    text::lemma_join_push(one.push(group).push(name), asset);
    text::lemma_join_push(four, asset);
    assert(four =~= seq![version, group, name, asset]);
    assert(four.push(asset) =~= seq![version, group, name, asset, asset]);
}

/// The births of an asset are two messages, the node birth first. Each goes
/// out on its topic, and whoever decodes it reads its own instant, the number
/// of a first message, and its control, which is off.
pub proof fn law_the_births_of_an_asset_read_back(
    version: Seq<char>,
    group: Seq<char>,
    asset: Seq<char>,
    node_at: u64,
    device_at: u64,
)
    requires
        births(version, group, asset, node_at, device_at)[0].payload.len() <= u64::MAX,
        births(version, group, asset, node_at, device_at)[1].payload.len() <= u64::MAX,
    ensures
        ({
            let both = births(version, group, asset, node_at, device_at);
            &&& both.len() == 2
            &&& both[0].topic == version + "/"@ + group + "/"@ + "NBIRTH"@ + "/"@ + asset
            &&& both[1].topic == version + "/"@ + group + "/"@ + "DBIRTH"@ + "/"@ + asset + "/"@
                + asset
            &&& codec::decoded(both[0].payload) matches Some(p) && {
                &&& p.timestamp == Some(node_at)
                &&& p.seq == Some(0u64)
                &&& p.metrics.len() == 1
                &&& p.metrics[0].name == Some("Node Control/Rebirth"@)
                &&& p.metrics[0].timestamp == Some(node_at)
                &&& p.metrics[0].value == Some(ValueView::DoubleValue(0))
            }
            &&& codec::decoded(both[1].payload) matches Some(p) && {
                &&& p.timestamp == Some(device_at)
                &&& p.seq == Some(0u64)
                &&& p.metrics.len() == 1
                &&& p.metrics[0].name == Some("Device Control/Rebirth"@)
                &&& p.metrics[0].timestamp == Some(device_at)
                &&& p.metrics[0].value == Some(ValueView::DoubleValue(0))
            }
        }),
{
    lemma_device_topic(version, group, "NBIRTH"@, asset);
    lemma_device_topic(version, group, "DBIRTH"@, asset);
    payload_helpers::law_a_birth_reads_back("Node Control/Rebirth"@, node_at, 0);
    payload_helpers::law_a_birth_reads_back("Device Control/Rebirth"@, device_at, 0);
}

/// A message asks for a rebirth of an asset when, and only when, its fourth
/// segment is the asset and its payload decodes to one that holds, somewhere,
/// a metric named `Node Control/Rebirth` whose value is the single-precision
/// number one.
pub proof fn law_a_rebirth_is_asked_for_by_name_and_number(
    topic: Seq<char>,
    bytes: Seq<u8>,
    asset: Seq<char>,
)
    ensures
        is_rebirth_request(topic, bytes, asset) <==> {
            &&& text::split(topic).len() >= 4
            &&& text::split(topic)[3] == asset
            &&& codec::decoded(bytes) is Some
            &&& !(forall|i: int|
                0 <= i < codec::decoded(bytes)->Some_0.metrics.len() ==> {
                    ||| (#[trigger] codec::decoded(bytes)->Some_0.metrics[i]).name != Some(
                        "Node Control/Rebirth"@,
                    )
                    ||| codec::decoded(bytes)->Some_0.metrics[i].value != Some(
                        ValueView::FloatValue(0x3f80_0000),
                    )
                })
        },
{
    if let Some(read) = codec::decoded(bytes) {
        assert forall|i: int| 0 <= i < read.metrics.len() implies (asks_for_rebirth(
            #[trigger] read.metrics[i],
        ) <==> read.metrics[i].name == Some("Node Control/Rebirth"@) && read.metrics[i].value
            == Some(ValueView::FloatValue(0x3f80_0000))) by {
        }
    }
}

/// The message behind message `index` is the next one, as long as there is
/// one.
pub proof fn law_messages_follow_each_other(count: nat, index: nat)
    ensures
        index + 1 < count ==> index_behind(count, index) == Some((index + 1) as nat),
        index + 1 >= count ==> index_behind(count, index) is None,
{
}

/// What goes out for a frame, whatever its metrics hold: the bytes of a
/// payload with the instant of the frame, the number of a first message, and
/// each metric in order with its name, its value and its datatype.
pub proof fn law_a_frame_goes_out_whole(
    version: Seq<char>,
    group: Seq<char>,
    asset: Seq<char>,
    frame: FrameView,
)
    ensures
        ({
            let sent = Seq::new(
                frame.metrics.len(),
                |i: int|
                    MetricView {
                        name: match frame.metrics[i].name {
                            Some(name) => Some(name),
                            None => Some(Seq::empty()),
                        },
                        alias: None,
                        timestamp: Some(frame.at),
                        datatype: frame.metrics[i].datatype,
                        is_historical: None,
                        is_transient: None,
                        is_null: None,
                        metadata: None,
                        properties: None,
                        value: frame.metrics[i].value,
                    },
            );
            data_message(version, group, asset, frame).payload == codec::payload_bytes(
                payload::PayloadView {
                    timestamp: Some(frame.at),
                    metrics: sent,
                    seq: Some(1),
                    uuid: None,
                    body: None,
                },
            )
        }),
{
    let sent = Seq::new(
        frame.metrics.len(),
        |i: int|
            MetricView {
                name: match frame.metrics[i].name {
                    Some(name) => Some(name),
                    None => Some(Seq::empty()),
                },
                alias: None,
                timestamp: Some(frame.at),
                datatype: frame.metrics[i].datatype,
                is_historical: None,
                is_transient: None,
                is_null: None,
                metadata: None,
                properties: None,
                value: frame.metrics[i].value,
            },
    );
    assert(frame.metrics.map_values(|metric: MetricView| framed(metric, frame.at)) =~= sent);
}

} // verus!
