//! The Sparkplug topic namespace, in both directions.
//!
//! Every topic this crate publishes to, and every topic it reads, passes
//! through here. [`Namespace`] builds topics and parses them. A
//! [`SparkplugTopic`] that exists is well-formed, so the accessors can say
//! honestly which identities a topic carries.

pub mod ids;

use crate::error::SparkplugError;
use crate::payload;
use crate::sparkplug::topic::ids::{DeviceId, EdgeNodeId, GroupId, HostId};
use crate::sparkplug::types::{self, MessageType, Shape};
use crate::text;
use vstd::prelude::*;

verus! {

// ---------------------------------------------------------------------------
// What a topic is
// ---------------------------------------------------------------------------

/// Which identities a topic carries, and their values.
#[verifier::ext_equal]
pub enum AddressView {
    Node { group_id: Seq<char>, node_id: Seq<char> },
    Device { group_id: Seq<char>, node_id: Seq<char>, device_id: Seq<char> },
    Host { host_id: Seq<char> },
}

/// What a [`SparkplugTopic`] holds.
#[verifier::ext_equal]
pub struct TopicView {
    pub namespace: Seq<char>,
    pub message_type: MessageType,
    pub address: AddressView,
}

/// Whether a topic is one a publisher may use: every segment can stand in a
/// topic, and the message type fixes which identities there are.
pub open spec fn is_well_formed(topic: TopicView) -> bool {
    &&& ids::is_usable(topic.namespace)
    &&& match topic.address {
        AddressView::Node { group_id, node_id } => {
            &&& types::shape_of(topic.message_type) == Shape::Node
            &&& ids::is_usable(group_id)
            &&& ids::is_usable(node_id)
        },
        AddressView::Device { group_id, node_id, device_id } => {
            &&& types::shape_of(topic.message_type) == Shape::Device
            &&& ids::is_usable(group_id)
            &&& ids::is_usable(node_id)
            &&& ids::is_usable(device_id)
        },
        AddressView::Host { host_id } => {
            &&& types::shape_of(topic.message_type) == Shape::Host
            &&& ids::is_usable(host_id)
        },
    }
}

/// The segments of a topic, in order.
pub open spec fn segments_of(topic: TopicView) -> Seq<Seq<char>> {
    let name = types::name_of(topic.message_type);
    match topic.address {
        AddressView::Node { group_id, node_id } => seq![topic.namespace, group_id, name, node_id],
        AddressView::Device { group_id, node_id, device_id } => seq![
            topic.namespace,
            group_id,
            name,
            node_id,
            device_id,
        ],
        AddressView::Host { host_id } => seq![topic.namespace, name, host_id],
    }
}

/// A topic as it is published: its segments with a `/` between each two.
pub open spec fn rendered(topic: TopicView) -> Seq<char> {
    text::join(segments_of(topic))
}

/// The group a topic names, if it names one.
pub open spec fn group_of(topic: TopicView) -> Option<Seq<char>> {
    match topic.address {
        AddressView::Node { group_id, .. } => Some(group_id),
        AddressView::Device { group_id, .. } => Some(group_id),
        AddressView::Host { .. } => None,
    }
}

/// The edge node a topic names, if it names one.
pub open spec fn node_of(topic: TopicView) -> Option<Seq<char>> {
    match topic.address {
        AddressView::Node { node_id, .. } => Some(node_id),
        AddressView::Device { node_id, .. } => Some(node_id),
        AddressView::Host { .. } => None,
    }
}

/// The device a topic names, if it names one.
pub open spec fn device_of(topic: TopicView) -> Option<Seq<char>> {
    match topic.address {
        AddressView::Device { device_id, .. } => Some(device_id),
        _ => None,
    }
}

/// The host application a topic names, if it names one.
pub open spec fn host_of(topic: TopicView) -> Option<Seq<char>> {
    match topic.address {
        AddressView::Host { host_id } => Some(host_id),
        _ => None,
    }
}

/// A node topic.
pub open spec fn node_view(
    namespace: Seq<char>,
    message_type: MessageType,
    group_id: Seq<char>,
    node_id: Seq<char>,
) -> TopicView {
    TopicView { namespace, message_type, address: AddressView::Node { group_id, node_id } }
}

/// A device topic.
pub open spec fn device_view(
    namespace: Seq<char>,
    message_type: MessageType,
    group_id: Seq<char>,
    node_id: Seq<char>,
    device_id: Seq<char>,
) -> TopicView {
    TopicView {
        namespace,
        message_type,
        address: AddressView::Device { group_id, node_id, device_id },
    }
}

/// A host topic.
pub open spec fn host_view(namespace: Seq<char>, host_id: Seq<char>) -> TopicView {
    TopicView {
        namespace,
        message_type: MessageType::STATE,
        address: AddressView::Host { host_id },
    }
}

// ---------------------------------------------------------------------------
// What parsing decides
// ---------------------------------------------------------------------------

/// Why a topic is refused.
#[verifier::ext_equal]
pub enum TopicFault {
    /// [`SparkplugError::InvalidTopic`], with what it says.
    Invalid(Seq<char>),
    /// [`SparkplugError::UnknownMessageType`], with the segment.
    UnknownType(Seq<char>),
    /// [`SparkplugError::WrongTopicShape`].
    WrongShape { topic: Seq<char>, message_type: MessageType },
}

/// The topic fault an error reports, if it reports one.
pub open spec fn fault_of(error: SparkplugError) -> Option<TopicFault> {
    match error {
        SparkplugError::InvalidTopic(reason) => Some(TopicFault::Invalid(reason@)),
        SparkplugError::UnknownMessageType(name) => Some(TopicFault::UnknownType(name@)),
        SparkplugError::WrongTopicShape { topic, message_type } => Some(
            TopicFault::WrongShape { topic: topic@, message_type },
        ),
        _ => None,
    }
}

/// What a segment gives when it is read as the identifier `label` names.
pub open spec fn checked(label: Seq<char>, segment: Seq<char>) -> Result<Seq<char>, TopicFault> {
    if ids::is_usable(segment) {
        Ok(segment)
    } else {
        Err(TopicFault::Invalid(ids::refusal(label, segment)))
    }
}

/// What four segments give as a node topic. The group is checked first.
pub open spec fn node_outcome(message_type: MessageType, parts: Seq<Seq<char>>) -> Result<
    TopicView,
    TopicFault,
> {
    match (checked("group id"@, parts[1]), checked("edge node id"@, parts[3])) {
        (Err(fault), _) => Err(fault),
        (Ok(_), Err(fault)) => Err(fault),
        (Ok(group), Ok(node)) => Ok(node_view(parts[0], message_type, group, node)),
    }
}

/// What five segments give as a device topic. The group is checked first,
/// the device last.
pub open spec fn device_outcome(message_type: MessageType, parts: Seq<Seq<char>>) -> Result<
    TopicView,
    TopicFault,
> {
    match (
        checked("group id"@, parts[1]),
        checked("edge node id"@, parts[3]),
        checked("device id"@, parts[4]),
    ) {
        (Err(fault), _, _) => Err(fault),
        (Ok(_), Err(fault), _) => Err(fault),
        (Ok(_), Ok(_), Err(fault)) => Err(fault),
        (Ok(group), Ok(node), Ok(device)) => Ok(
            device_view(parts[0], message_type, group, node, device),
        ),
    }
}

/// What three segments give as a host topic.
pub open spec fn host_outcome(parts: Seq<Seq<char>>) -> Result<TopicView, TopicFault> {
    match checked("host id"@, parts[2]) {
        Err(fault) => Err(fault),
        Ok(host) => Ok(host_view(parts[0], host)),
    }
}

/// The message type a segment names, if it names one.
pub open spec fn type_named(name: Seq<char>) -> Option<MessageType> {
    if exists|message_type: MessageType| types::name_of(message_type) == name {
        Some(choose|message_type: MessageType| types::name_of(message_type) == name)
    } else {
        None
    }
}

/// What a namespace reads in a topic.
///
/// The first segment must be the namespace. A STATE topic names its message
/// type second and has three segments. Every other topic names its message
/// type third, and that type decides how many segments there must be.
pub open spec fn parse_outcome(namespace: Seq<char>, topic: Seq<char>) -> Result<
    TopicView,
    TopicFault,
> {
    let parts = text::split(topic);
    if parts[0] != namespace {
        Err(TopicFault::Invalid(topic))
    } else if parts.len() > 1 && parts[1] == "STATE"@ {
        if parts.len() == 3 {
            host_outcome(parts)
        } else {
            Err(TopicFault::WrongShape { topic, message_type: MessageType::STATE })
        }
    } else if parts.len() < 3 {
        Err(TopicFault::Invalid(topic))
    } else {
        match type_named(parts[2]) {
            None => Err(TopicFault::UnknownType(parts[2])),
            Some(message_type) => match types::shape_of(message_type) {
                Shape::Node if parts.len() == 4 => node_outcome(message_type, parts),
                Shape::Device if parts.len() == 5 => device_outcome(message_type, parts),
                _ => Err(TopicFault::WrongShape { topic, message_type }),
            },
        }
    }
}

// ---------------------------------------------------------------------------
// Namespace
// ---------------------------------------------------------------------------

/// The root segment of every Sparkplug topic, which names the protocol
/// version.
///
/// Build one at connect time and keep it. It owns every topic constructor
/// and the parser, so the namespace string is written down once.
#[derive(Debug, PartialEq, Eq)]
pub struct Namespace(String);

impl View for Namespace {
    type V = Seq<char>;

    closed spec fn view(&self) -> Seq<char> {
        self.0@
    }
}

impl Clone for Namespace {
    fn clone(&self) -> (copy: Self)
        ensures
            copy@ == self@,
    {
        proof {
            use_type_invariant(self);
        }
        Namespace(self.0.clone())
    }
}

impl Default for Namespace {
    fn default() -> (namespace: Self)
        ensures
            namespace@ == "spBv1.0"@,
    {
        Namespace::sparkplug_b()
    }
}

impl Namespace {
    #[verifier::type_invariant]
    closed spec fn is_checked(self) -> bool {
        ids::is_usable(self.0@)
    }

    /// The standard Sparkplug B namespace, `spBv1.0`.
    #[must_use]
    pub fn sparkplug_b() -> (namespace: Self)
        ensures
            namespace@ == "spBv1.0"@,
    {
        proof {
            reveal_strlit("spBv1.0");
        }
        Namespace("spBv1.0".to_owned())
    }

    /// Build a namespace from a configured version string.
    ///
    /// # Errors
    ///
    /// Returns [`SparkplugError::InvalidNamespace`] when the string is empty
    /// or contains `/`, `+` or `#`. Such a namespace would produce topics no
    /// broker accepts.
    pub fn new(version: &str) -> (namespace: Result<Self, SparkplugError>)
        ensures
            match namespace {
                Ok(namespace) => ids::is_usable(version@) && namespace@ == version@,
                Err(error) => {
                    &&& !ids::is_usable(version@)
                    &&& error matches SparkplugError::InvalidNamespace(refused)
                    &&& refused@ == version@
                },
            },
    {
        if ids::is_usable_segment(version) {
            Ok(Namespace(version.to_owned()))
        } else {
            Err(SparkplugError::InvalidNamespace(version.to_owned()))
        }
    }

    /// The namespace as it appears in a topic.
    #[must_use]
    pub fn as_str(&self) -> (text: &str)
        ensures
            text@ == self@,
            ids::is_usable(text@),
    {
        proof {
            use_type_invariant(self);
        }
        self.0.as_str()
    }

    // -- node-shaped constructors ------------------------------------------

    /// Build an NBIRTH topic: `{namespace}/{group}/NBIRTH/{node}`.
    #[must_use]
    pub fn nbirth(&self, group_id: GroupId<'_>, node_id: EdgeNodeId<'_>) -> (topic: SparkplugTopic)
        ensures
            topic@ == node_view(self@, MessageType::NBIRTH, group_id@, node_id@),
            is_well_formed(topic@),
    {
        self.node_topic(MessageType::NBIRTH, group_id, node_id)
    }

    /// Build an NDATA topic: `{namespace}/{group}/NDATA/{node}`.
    #[must_use]
    pub fn ndata(&self, group_id: GroupId<'_>, node_id: EdgeNodeId<'_>) -> (topic: SparkplugTopic)
        ensures
            topic@ == node_view(self@, MessageType::NDATA, group_id@, node_id@),
            is_well_formed(topic@),
    {
        self.node_topic(MessageType::NDATA, group_id, node_id)
    }

    /// Build an NDEATH topic: `{namespace}/{group}/NDEATH/{node}`.
    #[must_use]
    pub fn ndeath(&self, group_id: GroupId<'_>, node_id: EdgeNodeId<'_>) -> (topic: SparkplugTopic)
        ensures
            topic@ == node_view(self@, MessageType::NDEATH, group_id@, node_id@),
            is_well_formed(topic@),
    {
        self.node_topic(MessageType::NDEATH, group_id, node_id)
    }

    /// Build an NCMD topic: `{namespace}/{group}/NCMD/{node}`.
    #[must_use]
    pub fn ncmd(&self, group_id: GroupId<'_>, node_id: EdgeNodeId<'_>) -> (topic: SparkplugTopic)
        ensures
            topic@ == node_view(self@, MessageType::NCMD, group_id@, node_id@),
            is_well_formed(topic@),
    {
        self.node_topic(MessageType::NCMD, group_id, node_id)
    }

    // -- device-shaped constructors ----------------------------------------

    /// Build a DBIRTH topic: `{namespace}/{group}/DBIRTH/{node}/{device}`.
    #[must_use]
    pub fn dbirth(
        &self,
        group_id: GroupId<'_>,
        node_id: EdgeNodeId<'_>,
        device_id: DeviceId<'_>,
    ) -> (topic: SparkplugTopic)
        ensures
            topic@ == device_view(
                self@,
                MessageType::DBIRTH,
                group_id@,
                node_id@,
                device_id@,
            ),
            is_well_formed(topic@),
    {
        self.device_topic(MessageType::DBIRTH, group_id, node_id, device_id)
    }

    /// Build a DDATA topic: `{namespace}/{group}/DDATA/{node}/{device}`.
    #[must_use]
    pub fn ddata(
        &self,
        group_id: GroupId<'_>,
        node_id: EdgeNodeId<'_>,
        device_id: DeviceId<'_>,
    ) -> (topic: SparkplugTopic)
        ensures
            topic@ == device_view(
                self@,
                MessageType::DDATA,
                group_id@,
                node_id@,
                device_id@,
            ),
            is_well_formed(topic@),
    {
        self.device_topic(MessageType::DDATA, group_id, node_id, device_id)
    }

    /// Build a DDEATH topic: `{namespace}/{group}/DDEATH/{node}/{device}`.
    #[must_use]
    pub fn ddeath(
        &self,
        group_id: GroupId<'_>,
        node_id: EdgeNodeId<'_>,
        device_id: DeviceId<'_>,
    ) -> (topic: SparkplugTopic)
        ensures
            topic@ == device_view(
                self@,
                MessageType::DDEATH,
                group_id@,
                node_id@,
                device_id@,
            ),
            is_well_formed(topic@),
    {
        self.device_topic(MessageType::DDEATH, group_id, node_id, device_id)
    }

    /// Build a DCMD topic: `{namespace}/{group}/DCMD/{node}/{device}`.
    #[must_use]
    pub fn dcmd(
        &self,
        group_id: GroupId<'_>,
        node_id: EdgeNodeId<'_>,
        device_id: DeviceId<'_>,
    ) -> (topic: SparkplugTopic)
        ensures
            topic@ == device_view(
                self@,
                MessageType::DCMD,
                group_id@,
                node_id@,
                device_id@,
            ),
            is_well_formed(topic@),
    {
        self.device_topic(MessageType::DCMD, group_id, node_id, device_id)
    }

    // -- host-shaped constructor -------------------------------------------

    /// Build a STATE topic: `{namespace}/STATE/{host}`.
    #[must_use]
    pub fn state(&self, host_id: HostId<'_>) -> (topic: SparkplugTopic)
        ensures
            topic@ == host_view(self@, host_id@),
            is_well_formed(topic@),
    {
        SparkplugTopic {
            namespace: self.as_str().to_owned(),
            message_type: MessageType::STATE,
            address: Address::Host { host_id: host_id.to_string() },
        }
    }

    // -- parsing -----------------------------------------------------------

    /// Parse a topic string published on this namespace.
    ///
    /// Parsing is strict. A topic whose segments do not match the shape its
    /// message type requires is rejected rather than reinterpreted, so a
    /// topic that survives is safe to read through the accessors.
    ///
    /// # Errors
    ///
    /// Returns [`SparkplugError::InvalidTopic`] when the topic does not
    /// belong to this namespace, has too few segments to address anything,
    /// or holds a segment that is no identifier. Returns
    /// [`SparkplugError::UnknownMessageType`] when the message type segment
    /// names no Sparkplug message. Returns
    /// [`SparkplugError::WrongTopicShape`] when the message type is known but
    /// the segment layout does not match it.
    pub fn parse(&self, topic: &str) -> (parsed: Result<SparkplugTopic, SparkplugError>)
        ensures
            match parsed {
                Ok(parsed) => parse_outcome(self@, topic@) == Ok::<_, TopicFault>(parsed@)
                    && is_well_formed(parsed@),
                Err(error) => parse_outcome(self@, topic@) matches Err(fault) && fault_of(error)
                    == Some(fault),
            },
    {
        let parts = text::split_text(topic);
        let ghost segments = text::split(topic@);
        proof {
            assert(segments.len() == parts@.len());
            assert forall|i: int| 0 <= i < parts@.len() implies #[trigger] parts@[i]@
                == segments[i] by {
                assert(text::parts_of(parts@)[i] == parts@[i]@);
            }
        }

        if !text::same_text(parts[0], self.as_str()) {
            return Err(SparkplugError::InvalidTopic(topic.to_owned()));
        }
        // STATE carries its message type in the second segment, not the third.
        if parts.len() > 1 && text::same_text(parts[1], MessageType::STATE.as_str()) {
            if parts.len() != 3 {
                return Err(wrong_shape(topic, MessageType::STATE));
            }
            return match HostId::new(parts[2]) {
                Ok(host_id) => Ok(self.state(host_id)),
                Err(error) => Err(error),
            };
        }
        if parts.len() < 3 {
            return Err(SparkplugError::InvalidTopic(topic.to_owned()));
        }
        let message_type = match MessageType::from_name(parts[2]) {
            Ok(message_type) => message_type,
            Err(error) => return Err(error),
        };
        proof {
            lemma_type_named(message_type);
        }
        let shape = message_type.shape();
        if matches!(shape, Shape::Node) && parts.len() == 4 {
            let group_id = match GroupId::new(parts[1]) {
                Ok(group_id) => group_id,
                Err(error) => return Err(error),
            };
            let node_id = match EdgeNodeId::new(parts[3]) {
                Ok(node_id) => node_id,
                Err(error) => return Err(error),
            };
            Ok(self.node_topic(message_type, group_id, node_id))
        } else if matches!(shape, Shape::Device) && parts.len() == 5 {
            let group_id = match GroupId::new(parts[1]) {
                Ok(group_id) => group_id,
                Err(error) => return Err(error),
            };
            let node_id = match EdgeNodeId::new(parts[3]) {
                Ok(node_id) => node_id,
                Err(error) => return Err(error),
            };
            let device_id = match DeviceId::new(parts[4]) {
                Ok(device_id) => device_id,
                Err(error) => return Err(error),
            };
            Ok(self.device_topic(message_type, group_id, node_id, device_id))
        } else {
            Err(wrong_shape(topic, message_type))
        }
    }

    // -- private -----------------------------------------------------------

    fn node_topic(
        &self,
        message_type: MessageType,
        group_id: GroupId<'_>,
        node_id: EdgeNodeId<'_>,
    ) -> (topic: SparkplugTopic)
        requires
            types::shape_of(message_type) == Shape::Node,
        ensures
            topic@ == node_view(self@, message_type, group_id@, node_id@),
            is_well_formed(topic@),
    {
        SparkplugTopic {
            namespace: self.as_str().to_owned(),
            message_type,
            address: Address::Node {
                group_id: group_id.to_string(),
                node_id: node_id.to_string(),
            },
        }
    }

    fn device_topic(
        &self,
        message_type: MessageType,
        group_id: GroupId<'_>,
        node_id: EdgeNodeId<'_>,
        device_id: DeviceId<'_>,
    ) -> (topic: SparkplugTopic)
        requires
            types::shape_of(message_type) == Shape::Device,
        ensures
            topic@ == device_view(self@, message_type, group_id@, node_id@, device_id@),
            is_well_formed(topic@),
    {
        SparkplugTopic {
            namespace: self.as_str().to_owned(),
            message_type,
            address: Address::Device {
                group_id: group_id.to_string(),
                node_id: node_id.to_string(),
                device_id: device_id.to_string(),
            },
        }
    }
}

fn wrong_shape(topic: &str, message_type: MessageType) -> (error: SparkplugError)
    ensures
        fault_of(error) == Some(TopicFault::WrongShape { topic: topic@, message_type }),
{
    SparkplugError::WrongTopicShape { topic: topic.to_owned(), message_type }
}

// ---------------------------------------------------------------------------
// SparkplugTopic
// ---------------------------------------------------------------------------

/// Which identities a topic carries, and their values.
///
/// Private, so a caller cannot build a shape that contradicts the message
/// type. Read it through the accessors on [`SparkplugTopic`].
#[derive(Debug, PartialEq, Eq)]
enum Address {
    Node { group_id: String, node_id: String },
    Device { group_id: String, node_id: String, device_id: String },
    Host { host_id: String },
}

impl View for Address {
    type V = AddressView;

    closed spec fn view(&self) -> AddressView {
        match self {
            Address::Node { group_id, node_id } => AddressView::Node {
                group_id: group_id@,
                node_id: node_id@,
            },
            Address::Device { group_id, node_id, device_id } => AddressView::Device {
                group_id: group_id@,
                node_id: node_id@,
                device_id: device_id@,
            },
            Address::Host { host_id } => AddressView::Host { host_id: host_id@ },
        }
    }
}

/// A well-formed Sparkplug topic.
///
/// Build one through [`Namespace`], or parse one with [`Namespace::parse`].
/// There is no other way to make one, so holding a value of this type means
/// the topic is addressable.
///
/// The identity accessors return `Option` because the shape decides which
/// identities exist. A host topic has no group and no edge node; a node topic
/// has no device. Each one returns the identifier's own type, because the
/// segment passed its check when the topic was built.
#[derive(Debug, PartialEq, Eq)]
pub struct SparkplugTopic {
    namespace: String,
    message_type: MessageType,
    address: Address,
}

impl View for SparkplugTopic {
    type V = TopicView;

    closed spec fn view(&self) -> TopicView {
        TopicView {
            namespace: self.namespace@,
            message_type: self.message_type,
            address: self.address@,
        }
    }
}

impl Clone for SparkplugTopic {
    fn clone(&self) -> (copy: Self)
        ensures
            copy@ == self@,
    {
        proof {
            use_type_invariant(self);
        }
        let address = match &self.address {
            Address::Node { group_id, node_id } => Address::Node {
                group_id: group_id.clone(),
                node_id: node_id.clone(),
            },
            Address::Device { group_id, node_id, device_id } => Address::Device {
                group_id: group_id.clone(),
                node_id: node_id.clone(),
                device_id: device_id.clone(),
            },
            Address::Host { host_id } => Address::Host { host_id: host_id.clone() },
        };
        SparkplugTopic {
            namespace: self.namespace.clone(),
            message_type: self.message_type,
            address,
        }
    }
}

impl SparkplugTopic {
    #[verifier::type_invariant]
    closed spec fn is_checked(self) -> bool {
        is_well_formed(self@)
    }

    /// Which segment layout this topic uses.
    #[must_use]
    pub fn shape(&self) -> (shape: Shape)
        ensures
            shape == types::shape_of(self@.message_type),
            is_well_formed(self@),
    {
        proof {
            use_type_invariant(self);
        }
        self.message_type.shape()
    }

    /// What this message means in the session lifecycle.
    #[must_use]
    pub fn message_type(&self) -> (message_type: MessageType)
        ensures
            message_type == self@.message_type,
    {
        self.message_type
    }

    /// The namespace this topic belongs to.
    #[must_use]
    pub fn namespace(&self) -> (namespace: &str)
        ensures
            namespace@ == self@.namespace,
    {
        self.namespace.as_str()
    }

    /// The group, on node and device topics. `None` on a host topic.
    #[must_use]
    pub fn group_id(&self) -> (group_id: Option<GroupId<'_>>)
        ensures
            payload::view_of(group_id) == group_of(self@),
            is_well_formed(self@),
    {
        proof {
            use_type_invariant(self);
        }
        match &self.address {
            Address::Node { group_id, .. } => Some(GroupId::wrap_checked(group_id.as_str())),
            Address::Device { group_id, .. } => Some(GroupId::wrap_checked(group_id.as_str())),
            Address::Host { .. } => None,
        }
    }

    /// The edge node, on node and device topics. `None` on a host topic.
    #[must_use]
    pub fn node_id(&self) -> (node_id: Option<EdgeNodeId<'_>>)
        ensures
            payload::view_of(node_id) == node_of(self@),
    {
        proof {
            use_type_invariant(self);
        }
        match &self.address {
            Address::Node { node_id, .. } => Some(EdgeNodeId::wrap_checked(node_id.as_str())),
            Address::Device { node_id, .. } => Some(EdgeNodeId::wrap_checked(node_id.as_str())),
            Address::Host { .. } => None,
        }
    }

    /// The device, on device topics only.
    #[must_use]
    pub fn device_id(&self) -> (device_id: Option<DeviceId<'_>>)
        ensures
            payload::view_of(device_id) == device_of(self@),
    {
        proof {
            use_type_invariant(self);
        }
        match &self.address {
            Address::Device { device_id, .. } => Some(DeviceId::wrap_checked(device_id.as_str())),
            _ => None,
        }
    }

    /// The host application, on host topics only.
    #[must_use]
    pub fn host_id(&self) -> (host_id: Option<HostId<'_>>)
        ensures
            payload::view_of(host_id) == host_of(self@),
    {
        proof {
            use_type_invariant(self);
        }
        match &self.address {
            Address::Host { host_id } => Some(HostId::wrap_checked(host_id.as_str())),
            _ => None,
        }
    }

    /// The topic as it is published.
    #[must_use]
    pub fn to_string(&self) -> (topic: String)
        ensures
            topic@ == rendered(self@),
    {
        let mut topic = self.namespace.clone();
        match &self.address {
            Address::Node { group_id, node_id } => {
                topic.append("/");
                topic.append(group_id.as_str());
                topic.append("/");
                topic.append(self.message_type.as_str());
                topic.append("/");
                topic.append(node_id.as_str());
            },
            Address::Device { group_id, node_id, device_id } => {
                topic.append("/");
                topic.append(group_id.as_str());
                topic.append("/");
                topic.append(self.message_type.as_str());
                topic.append("/");
                topic.append(node_id.as_str());
                topic.append("/");
                topic.append(device_id.as_str());
            },
            Address::Host { host_id } => {
                topic.append("/");
                topic.append(self.message_type.as_str());
                topic.append("/");
                topic.append(host_id.as_str());
            },
        }
        proof {
            lemma_rendered(self@);
        }
        topic
    }
}

// ---------------------------------------------------------------------------
// What holds of every topic
// ---------------------------------------------------------------------------

/// A message type is the one its name gives.
proof fn lemma_type_named(message_type: MessageType)
    ensures
        type_named(types::name_of(message_type)) == Some(message_type),
{
    let named = type_named(types::name_of(message_type)).unwrap();
    types::law_names_are_distinct(named, message_type);
}

/// A rendered topic, segment by segment.
proof fn lemma_rendered(topic: TopicView)
    ensures
        ({
            let name = types::name_of(topic.message_type);
            match topic.address {
                AddressView::Node { group_id, node_id } => rendered(topic) == topic.namespace + "/"@
                    + group_id + "/"@ + name + "/"@ + node_id,
                AddressView::Device { group_id, node_id, device_id } => rendered(topic)
                    == topic.namespace + "/"@ + group_id + "/"@ + name + "/"@ + node_id + "/"@
                    + device_id,
                AddressView::Host { host_id } => rendered(topic) == topic.namespace + "/"@ + name
                    + "/"@ + host_id,
            }
        }),
{
    let name = types::name_of(topic.message_type);
    let one = seq![topic.namespace];
    match topic.address {
        AddressView::Node { group_id, node_id } => {
            let two = one.push(group_id);
            text::lemma_join_push(one, group_id);
            text::lemma_join_push(two, name);
            text::lemma_join_push(two.push(name), node_id);
            assert(segments_of(topic) =~= two.push(name).push(node_id));
        },
        AddressView::Device { group_id, node_id, device_id } => {
            let two = one.push(group_id);
            text::lemma_join_push(one, group_id);
            text::lemma_join_push(two, name);
            text::lemma_join_push(two.push(name), node_id);
            text::lemma_join_push(two.push(name).push(node_id), device_id);
            assert(segments_of(topic) =~= two.push(name).push(node_id).push(device_id));
        },
        AddressView::Host { host_id } => {
            text::lemma_join_push(one, name);
            text::lemma_join_push(one.push(name), host_id);
            assert(segments_of(topic) =~= one.push(name).push(host_id));
        },
    }
}

/// A usable segment holds no separator.
proof fn lemma_usable_has_no_slash(text: Seq<char>)
    requires
        ids::is_usable(text),
    ensures
        text::has_no_slash(text),
{
    assert forall|i: int| 0 <= i < text.len() implies #[trigger] text[i] != '/' by {
        assert(ids::is_plain(text[i]));
    }
}

/// The segments of a well-formed topic are those its text splits into.
pub proof fn law_a_rendered_topic_splits_into_its_segments(topic: TopicView)
    requires
        is_well_formed(topic),
    ensures
        text::split(rendered(topic)) == segments_of(topic),
{
    let parts = segments_of(topic);
    types::lemma_name_is_usable(topic.message_type);
    assert forall|i: int| 0 <= i < parts.len() implies text::has_no_slash(#[trigger] parts[i]) by {
        lemma_usable_has_no_slash(parts[i]);
    }
    text::lemma_split_join(parts);
}

/// A topic that was rendered parses back as itself on its own namespace,
/// unless its group is named `STATE`: that word in the second segment marks
/// a host topic.
pub proof fn law_parse_gives_back_the_rendered_topic(topic: TopicView)
    requires
        is_well_formed(topic),
        group_of(topic) != Some("STATE"@),
    ensures
        parse_outcome(topic.namespace, rendered(topic)) == Ok::<_, TopicFault>(topic),
{
    law_a_rendered_topic_splits_into_its_segments(topic);
    lemma_type_named(topic.message_type);
}

/// A topic whose group is named `STATE` is refused when it is read back,
/// because that word in the second segment marks a host topic.
pub proof fn law_a_group_named_state_is_refused(topic: TopicView)
    requires
        is_well_formed(topic),
        group_of(topic) == Some("STATE"@),
    ensures
        parse_outcome(topic.namespace, rendered(topic)) == Err::<TopicView, _>(
            TopicFault::WrongShape { topic: rendered(topic), message_type: MessageType::STATE },
        ),
{
    law_a_rendered_topic_splits_into_its_segments(topic);
}

/// A topic that parses is well-formed, belongs to the namespace that read
/// it, and renders as the text it was read from.
pub proof fn law_a_parsed_topic_renders_as_it_was_read(
    namespace: Seq<char>,
    text: Seq<char>,
    topic: TopicView,
)
    requires
        ids::is_usable(namespace),
        parse_outcome(namespace, text) == Ok::<_, TopicFault>(topic),
    ensures
        is_well_formed(topic),
        topic.namespace == namespace,
        rendered(topic) == text,
{
    let parts = text::split(text);
    text::lemma_join_split(text);
    assert(segments_of(topic) =~= parts);
}

/// Two well-formed topics that render alike are one topic.
pub proof fn law_rendering_keeps_topics_apart(a: TopicView, b: TopicView)
    requires
        is_well_formed(a),
        is_well_formed(b),
        rendered(a) == rendered(b),
    ensures
        a == b,
{
    law_a_rendered_topic_splits_into_its_segments(a);
    law_a_rendered_topic_splits_into_its_segments(b);
    let left = segments_of(a);
    let right = segments_of(b);
    assert(left.len() == right.len());
    assert(left[0] == right[0] && left[1] == right[1] && left[2] == right[2]);
    if left.len() > 3 {
        assert(left[3] == right[3]);
        types::law_names_are_distinct(a.message_type, b.message_type);
    }
    if left.len() > 4 {
        assert(left[4] == right[4]);
    }
}

/// A topic on one namespace is refused by every other.
pub proof fn law_a_namespace_reads_only_its_own_topics(namespace: Seq<char>, topic: TopicView)
    requires
        is_well_formed(topic),
        topic.namespace != namespace,
    ensures
        parse_outcome(namespace, rendered(topic)) == Err::<TopicView, _>(
            TopicFault::Invalid(rendered(topic)),
        ),
{
    law_a_rendered_topic_splits_into_its_segments(topic);
}

/// Which identities a topic carries follows from its shape alone.
pub proof fn law_the_shape_decides_the_identities(topic: TopicView)
    requires
        is_well_formed(topic),
    ensures
        ({
            let shape = types::shape_of(topic.message_type);
            &&& group_of(topic) is Some <==> shape != Shape::Host
            &&& node_of(topic) is Some <==> shape != Shape::Host
            &&& device_of(topic) is Some <==> shape == Shape::Device
            &&& host_of(topic) is Some <==> shape == Shape::Host
        }),
{
}

/// A topic spells its segments in order, with a `/` between each two: the
/// namespace, the group, the name of the message type, the edge node and, on
/// a device topic, the device. A host topic has no group and no edge node.
pub proof fn law_a_topic_spells_its_segments(topic: TopicView)
    ensures
        ({
            let name = types::name_of(topic.message_type);
            match topic.address {
                AddressView::Node { group_id, node_id } => rendered(topic) == topic.namespace + "/"@
                    + group_id + "/"@ + name + "/"@ + node_id,
                AddressView::Device { group_id, node_id, device_id } => rendered(topic)
                    == topic.namespace + "/"@ + group_id + "/"@ + name + "/"@ + node_id + "/"@
                    + device_id,
                AddressView::Host { host_id } => rendered(topic) == topic.namespace + "/"@ + name
                    + "/"@ + host_id,
            }
        }),
{
    lemma_rendered(topic);
}

/// A topic names the identities it was built from, and no other.
pub proof fn law_a_topic_names_what_it_was_built_from(
    namespace: Seq<char>,
    message_type: MessageType,
    group: Seq<char>,
    node: Seq<char>,
    other: Seq<char>,
)
    ensures
        ({
            let t = node_view(namespace, message_type, group, node);
            &&& t.namespace == namespace
            &&& t.message_type == message_type
            &&& group_of(t) == Some(group)
            &&& node_of(t) == Some(node)
            &&& device_of(t) is None
            &&& host_of(t) is None
        }),
        ({
            let t = device_view(namespace, message_type, group, node, other);
            &&& t.namespace == namespace
            &&& t.message_type == message_type
            &&& group_of(t) == Some(group)
            &&& node_of(t) == Some(node)
            &&& device_of(t) == Some(other)
            &&& host_of(t) is None
        }),
        ({
            let t = host_view(namespace, other);
            &&& t.namespace == namespace
            &&& t.message_type == MessageType::STATE
            &&& group_of(t) is None
            &&& node_of(t) is None
            &&& device_of(t) is None
            &&& host_of(t) == Some(other)
        }),
{
}

/// A topic is well-formed when each of its segments can stand in a topic,
/// and its message type has the shape of its address.
pub proof fn law_a_well_formed_topic_has_usable_segments(topic: TopicView)
    ensures
        is_well_formed(topic) <==> {
            &&& forall|i: int|
                0 <= i < segments_of(topic).len() ==> ids::is_usable(
                    #[trigger] segments_of(topic)[i],
                )
            &&& topic.address is Node <==> types::shape_of(topic.message_type) == Shape::Node
            &&& topic.address is Device <==> types::shape_of(topic.message_type) == Shape::Device
            &&& topic.address is Host <==> types::shape_of(topic.message_type) == Shape::Host
        },
{
    types::lemma_name_is_usable(topic.message_type);
    let parts = segments_of(topic);
    if forall|i: int| 0 <= i < parts.len() ==> ids::is_usable(#[trigger] parts[i]) {
        assert(ids::is_usable(parts[0]));
        assert(ids::is_usable(parts[1]));
        assert(ids::is_usable(parts[2]));
        if parts.len() > 3 {
            assert(ids::is_usable(parts[3]));
        }
        if parts.len() > 4 {
            assert(ids::is_usable(parts[4]));
        }
    }
}

/// A text parses when, and only when, it spells a well-formed topic of the
/// namespace whose group is not named `STATE`, and then it parses as that
/// topic.
pub proof fn law_a_text_parses_exactly_when_it_spells_a_topic(
    namespace: Seq<char>,
    text: Seq<char>,
    topic: TopicView,
)
    requires
        ids::is_usable(namespace),
    ensures
        parse_outcome(namespace, text) == Ok::<_, TopicFault>(topic) <==> {
            &&& is_well_formed(topic)
            &&& topic.namespace == namespace
            &&& group_of(topic) != Some("STATE"@)
            &&& rendered(topic) == text
        },
{
    if parse_outcome(namespace, text) == Ok::<_, TopicFault>(topic) {
        law_a_parsed_topic_renders_as_it_was_read(namespace, text, topic);
        if group_of(topic) == Some("STATE"@) {
            law_a_group_named_state_is_refused(topic);
        }
    }
    if is_well_formed(topic) && topic.namespace == namespace && group_of(topic) != Some("STATE"@) {
        law_parse_gives_back_the_rendered_topic(topic);
    }
}

/// Why a text is refused, segment by segment. The namespace comes first, and
/// a second segment that reads `STATE` next; what is left must name a message
/// type third, have as many segments as that type needs, and hold an
/// identifier in each place that takes one.
pub proof fn law_a_refused_text_is_told_why(namespace: Seq<char>, text: Seq<char>)
    ensures
        ({
            let parts = text::split(text);
            let ours = parts[0] == namespace;
            let host = parts.len() > 1 && parts[1] == "STATE"@;
            let outcome = parse_outcome(namespace, text);
            &&& !ours ==> outcome == Err::<TopicView, _>(TopicFault::Invalid(text))
            &&& ours && host && parts.len() != 3 ==> outcome == Err::<TopicView, _>(
                TopicFault::WrongShape { topic: text, message_type: MessageType::STATE },
            )
            &&& ours && host && parts.len() == 3 && !ids::is_usable(parts[2]) ==> outcome == Err::<
                TopicView,
                _,
            >(TopicFault::Invalid(ids::refusal("host id"@, parts[2])))
            &&& ours && !host && parts.len() < 3 ==> outcome == Err::<TopicView, _>(
                TopicFault::Invalid(text),
            )
            &&& ours && !host && parts.len() >= 3 && (forall|t: MessageType|
                #[trigger] types::name_of(t) != parts[2]) ==> outcome == Err::<TopicView, _>(
                TopicFault::UnknownType(parts[2]),
            )
            &&& forall|t: MessageType|
                ours && !host && parts.len() >= 3 && #[trigger] types::name_of(t) == parts[2] ==> {
                    let needed: nat = match types::shape_of(t) {
                        Shape::Node => 4,
                        Shape::Device => 5,
                        Shape::Host => 0,
                    };
                    &&& parts.len() != needed ==> outcome == Err::<TopicView, _>(
                        TopicFault::WrongShape { topic: text, message_type: t },
                    )
                    &&& parts.len() == needed && !ids::is_usable(parts[1]) ==> outcome == Err::<
                        TopicView,
                        _,
                    >(TopicFault::Invalid(ids::refusal("group id"@, parts[1])))
                    &&& parts.len() == needed && ids::is_usable(parts[1]) && !ids::is_usable(
                        parts[3],
                    ) ==> outcome == Err::<TopicView, _>(
                        TopicFault::Invalid(ids::refusal("edge node id"@, parts[3])),
                    )
                    &&& parts.len() == 5 && needed == 5 && ids::is_usable(parts[1])
                        && ids::is_usable(parts[3]) && !ids::is_usable(parts[4]) ==> outcome
                        == Err::<TopicView, _>(
                        TopicFault::Invalid(ids::refusal("device id"@, parts[4])),
                    )
                }
        }),
{
    let parts = text::split(text);
    assert forall|t: MessageType| #[trigger] types::name_of(t) == parts[2] implies type_named(
        parts[2],
    ) == Some(t) by {
        lemma_type_named(t);
    }
}

/// An error carries its fault as it is.
pub proof fn law_an_error_carries_its_fault(text: String, message_type: MessageType)
    ensures
        fault_of(SparkplugError::InvalidTopic(text)) == Some(TopicFault::Invalid(text@)),
        fault_of(SparkplugError::UnknownMessageType(text)) == Some(
            TopicFault::UnknownType(text@),
        ),
        fault_of(SparkplugError::WrongTopicShape { topic: text, message_type }) == Some(
            TopicFault::WrongShape { topic: text@, message_type },
        ),
{
}

/// An error that reports a topic fault is one of the three, with what the
/// fault says.
pub proof fn law_a_fault_names_its_error(error: SparkplugError)
    ensures
        fault_of(error) matches Some(TopicFault::Invalid(reason)) ==> (error matches
            SparkplugError::InvalidTopic(text) && text@ == reason),
        fault_of(error) matches Some(TopicFault::UnknownType(name)) ==> (error matches
            SparkplugError::UnknownMessageType(text) && text@ == name),
        fault_of(error) matches Some(TopicFault::WrongShape { topic, message_type }) ==> (
        error matches SparkplugError::WrongTopicShape { topic: text, message_type: named } && text@
            == topic && named == message_type),
{
}

} // verus!
