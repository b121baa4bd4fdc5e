//! The Sparkplug client: which identity it holds, what it has counted, and
//! what it decides.
//!
//! A [`SparkplugClient`] holds no connection. The caller owns it: it polls
//! the event loop, hands messages to the MQTT client, and waits. This module
//! says what each event means and which message goes out next.
//!
//! A client connects in one of two roles. A publisher client takes the edge
//! node of each publish per call. An edge node client names one edge node at
//! connect, and it is the client that announces a birth.

pub mod order;
pub mod publish;
pub mod shutdown;

use crate::client::MqttConfig;
use crate::error::SparkplugError;
use crate::sparkplug::client::shutdown::DisconnectRequest;
use crate::sparkplug::delivery::{self, DeliveryTracker, DeliveryView, FlushWindow};
use crate::sparkplug::eventloop::{self, Health, LoopEvent, LoopState, LoopView, Step};
use crate::sparkplug::sequence::{Locks, SeqCounters};
use crate::sparkplug::topic::ids::{self, EdgeNode, EdgeNodeView, OwnedEdgeNode};
use crate::sparkplug::topic::Namespace;
use crate::sparkplug::types::{self, MessageType, Role};
use std::time::Duration;
use vstd::prelude::*;

verus! {

/// How many seconds [`SparkplugClient::connect`] waits for the broker to
/// answer.
pub const DEFAULT_CONNECT_TIMEOUT_SECS: u64 = 5;

/// The duration of a number of seconds.
pub uninterp spec fn duration_of_secs(secs: u64) -> Duration;

/// Calls `Duration::from_secs` and names the duration it gives.
#[verifier::external_body]
fn seconds(secs: u64) -> (duration: Duration)
    ensures
        duration == duration_of_secs(secs),
{
    Duration::from_secs(secs)
}

// ---------------------------------------------------------------------------
// What a client is
// ---------------------------------------------------------------------------

/// Which Sparkplug identity a client holds, fixed when it connects.
///
/// The identity and the role are one value, so a client in the edge node
/// role always names the edge node it speaks for. Nothing can build the role
/// without a checked pair beside it.
#[derive(Debug, PartialEq, Eq)]
pub enum Identity {
    /// Publishes on behalf of edge nodes it does not own.
    ///
    /// It names no edge node of its own, so it announces no birth and no
    /// death. Every publish carries the edge node the caller gives it.
    Publisher,
    /// Speaks for one edge node, named here at connect.
    EdgeNode(OwnedEdgeNode),
}

/// What an [`Identity`] holds.
#[verifier::ext_equal]
pub enum IdentityView {
    Publisher,
    EdgeNode(EdgeNodeView),
}

impl View for Identity {
    type V = IdentityView;

    open spec fn view(&self) -> IdentityView {
        match self {
            Identity::Publisher => IdentityView::Publisher,
            Identity::EdgeNode(edge_node) => IdentityView::EdgeNode(edge_node@),
        }
    }
}

/// The role an identity gives.
pub open spec fn role_of(identity: IdentityView) -> Role {
    match identity {
        IdentityView::Publisher => Role::Publisher,
        IdentityView::EdgeNode(_) => Role::EdgeNode,
    }
}

/// What a [`SparkplugClient`] holds.
#[verifier::ext_equal]
pub struct ClientView {
    /// The namespace it publishes on.
    pub namespace: Seq<char>,
    /// Which Sparkplug identity it holds.
    pub identity: IdentityView,
    /// What is outstanding, and what was lost.
    pub delivery: DeliveryView,
    /// The `seq` count of each edge node it publishes for.
    pub locks: Locks,
    /// Whether the link is up.
    pub health: Health,
    /// What its event loop remembers.
    pub event_loop: LoopView,
}

/// A client that has just been built.
pub open spec fn fresh_client(namespace: Seq<char>, identity: IdentityView) -> ClientView {
    ClientView {
        namespace,
        identity,
        delivery: delivery::nothing_counted(),
        locks: Map::empty(),
        health: Health::Disconnected,
        event_loop: eventloop::loop_start(),
    }
}

/// A client after one polled event.
pub open spec fn client_after(client: ClientView, event: LoopEvent) -> ClientView {
    ClientView {
        delivery: eventloop::delivery_after(client.delivery, event),
        health: match eventloop::health_shown(event) {
            Some(health) => health,
            None => client.health,
        },
        event_loop: eventloop::loop_after(client.event_loop, event),
        ..client
    }
}

/// Whether a client can count what an event brings: the loss of a
/// disconnect, and one more poll error.
pub open spec fn can_count(client: ClientView, event: LoopEvent) -> bool {
    &&& eventloop::loses_everything(event) ==> delivery::can_disconnect(client.delivery)
    &&& event == LoopEvent::PollError ==> client.event_loop.errors < u32::MAX
}

/// A Sparkplug B client, without its connection.
pub struct SparkplugClient {
    namespace: Namespace,
    identity: Identity,
    delivery: DeliveryTracker,
    seq: SeqCounters,
    health: Health,
    event_loop: LoopState,
}

impl View for SparkplugClient {
    type V = ClientView;

    closed spec fn view(&self) -> ClientView {
        ClientView {
            namespace: self.namespace@,
            identity: self.identity@,
            delivery: self.delivery@,
            locks: self.seq@,
            health: self.health,
            event_loop: self.event_loop@,
        }
    }
}

/// A client that waits for its broker.
///
/// The caller opens the connection, polls it, and hands each event to the
/// client. When the client has been told to be ready, or the timeout has run
/// out, [`connect_outcome`] says how the connect ended.
pub struct Connecting {
    pub client: SparkplugClient,
    /// How long to wait for the broker to answer.
    pub timeout: Duration,
}

/// How a connect ends, from whether the broker answered within `timeout`.
///
/// # Errors
///
/// Returns [`SparkplugError::ConnectionTimeout`] when it did not.
pub fn connect_outcome(answered: bool, timeout: Duration) -> (outcome: Result<(), SparkplugError>)
    ensures
        match outcome {
            Ok(()) => answered,
            Err(error) => !answered && error == SparkplugError::ConnectionTimeout(timeout),
        },
{
    if answered {
        Ok(())
    } else {
        Err(SparkplugError::ConnectionTimeout(timeout))
    }
}

// ---------------------------------------------------------------------------
// Connecting
// ---------------------------------------------------------------------------

impl SparkplugClient {
    /// Start to connect as a publisher, with the default wait.
    ///
    /// The client takes the edge node of each publish per call and owns
    /// none, so it announces no birth. Call [`Self::connect_as_edge_node`]
    /// for a client that speaks for one edge node.
    ///
    /// The wait is [`DEFAULT_CONNECT_TIMEOUT_SECS`].
    ///
    /// # Errors
    ///
    /// Returns [`SparkplugError::InvalidNamespace`] when `config.version`
    /// cannot stand as a topic segment.
    pub fn connect(config: &MqttConfig) -> (connecting: Result<Connecting, SparkplugError>)
        ensures
            match connecting {
                Ok(connecting) => {
                    &&& ids::is_usable(config@.version)
                    &&& connecting.timeout == duration_of_secs(DEFAULT_CONNECT_TIMEOUT_SECS)
                    &&& connecting.client@ == fresh_client(
                        config@.version,
                        IdentityView::Publisher,
                    )
                },
                Err(error) => {
                    &&& !ids::is_usable(config@.version)
                    &&& error matches SparkplugError::InvalidNamespace(version)
                    &&& version@ == config@.version
                },
            },
    {
        SparkplugClient::connect_with(
            config,
            Identity::Publisher,
            seconds(DEFAULT_CONNECT_TIMEOUT_SECS),
        )
    }

    /// Start to connect as a publisher, waiting up to `timeout` for the
    /// broker to answer.
    ///
    /// Raise the timeout when the broker may be restarting alongside this
    /// process.
    ///
    /// # Errors
    ///
    /// Returns [`SparkplugError::InvalidNamespace`] when `config.version`
    /// cannot stand as a topic segment.
    pub fn connect_with_timeout(config: &MqttConfig, timeout: Duration) -> (connecting: Result<
        Connecting,
        SparkplugError,
    >)
        ensures
            match connecting {
                Ok(connecting) => {
                    &&& ids::is_usable(config@.version)
                    &&& connecting.timeout == timeout
                    &&& connecting.client@ == fresh_client(
                        config@.version,
                        IdentityView::Publisher,
                    )
                },
                Err(error) => {
                    &&& !ids::is_usable(config@.version)
                    &&& error matches SparkplugError::InvalidNamespace(version)
                    &&& version@ == config@.version
                },
            },
    {
        SparkplugClient::connect_with(config, Identity::Publisher, timeout)
    }

    /// Start to connect as one edge node, named here and fixed for the
    /// session.
    ///
    /// `edge_node` names the Sparkplug entity this client speaks for.
    /// `config.client_id` names the MQTT connection. The two are separate:
    /// one process can hold several connections, each with its own client
    /// id, and only some of them speak for an edge node.
    ///
    /// # Errors
    ///
    /// Returns [`SparkplugError::InvalidNamespace`] when `config.version`
    /// cannot stand as a topic segment.
    pub fn connect_as_edge_node(
        config: &MqttConfig,
        edge_node: EdgeNode<'_>,
        timeout: Duration,
    ) -> (connecting: Result<Connecting, SparkplugError>)
        ensures
            match connecting {
                Ok(connecting) => {
                    &&& ids::is_usable(config@.version)
                    &&& connecting.timeout == timeout
                    &&& connecting.client@ == fresh_client(
                        config@.version,
                        IdentityView::EdgeNode(edge_node@),
                    )
                },
                Err(error) => {
                    &&& !ids::is_usable(config@.version)
                    &&& error matches SparkplugError::InvalidNamespace(version)
                    &&& version@ == config@.version
                },
            },
    {
        let owned = OwnedEdgeNode::from(edge_node);
        SparkplugClient::connect_with(config, Identity::EdgeNode(owned), timeout)
    }

    /// Build the client, whichever identity it holds.
    ///
    /// Every public constructor runs this body, so they differ in the
    /// identity alone.
    fn connect_with(config: &MqttConfig, identity: Identity, timeout: Duration) -> (connecting:
        Result<Connecting, SparkplugError>)
        ensures
            match connecting {
                Ok(connecting) => {
                    &&& ids::is_usable(config@.version)
                    &&& connecting.timeout == timeout
                    &&& connecting.client@ == fresh_client(config@.version, identity@)
                },
                Err(error) => {
                    &&& !ids::is_usable(config@.version)
                    &&& error matches SparkplugError::InvalidNamespace(version)
                    &&& version@ == config@.version
                },
            },
    {
        let namespace = match Namespace::new(config.version.as_str()) {
            Ok(namespace) => namespace,
            Err(error) => return Err(error),
        };
        Ok(Connecting { client: SparkplugClient::new(namespace, identity), timeout })
    }

    /// Build a client on a namespace that was checked already.
    #[must_use]
    pub fn new(namespace: Namespace, identity: Identity) -> (client: Self)
        ensures
            client@ == fresh_client(namespace@, identity@),
    {
        SparkplugClient {
            namespace,
            identity,
            delivery: DeliveryTracker::new(),
            seq: SeqCounters::new(),
            health: Health::Disconnected,
            event_loop: LoopState::new(),
        }
    }

    // -- reading -----------------------------------------------------------

    /// Which role this client publishes in.
    ///
    /// The identity decides it, so an edge node role always has an edge node
    /// beside it.
    #[must_use]
    pub fn role(&self) -> (role: Role)
        ensures
            role == role_of(self@.identity),
    {
        match &self.identity {
            Identity::Publisher => Role::Publisher,
            Identity::EdgeNode(_) => Role::EdgeNode,
        }
    }

    /// The edge node this client speaks for, or `None` for a publisher.
    ///
    /// The stored pair passed its check when it entered, so this borrows it
    /// rather than checking it again.
    #[must_use]
    pub fn edge_node(&self) -> (edge_node: Option<EdgeNode<'_>>)
        ensures
            match edge_node {
                Some(edge_node) => self@.identity == IdentityView::EdgeNode(edge_node@)
                    && ids::is_usable_pair(edge_node@),
                None => self@.identity == IdentityView::Publisher,
            },
    {
        match &self.identity {
            Identity::Publisher => None,
            Identity::EdgeNode(edge_node) => Some(edge_node.borrowed()),
        }
    }

    /// The namespace this client publishes on.
    ///
    /// Use it to build topics for [`Self::publish_metric_to`].
    #[must_use]
    pub fn namespace(&self) -> (namespace: &Namespace)
        ensures
            namespace@ == self@.namespace,
    {
        &self.namespace
    }

    /// How many publishes the broker has not acknowledged yet.
    #[must_use]
    pub fn unacked(&self) -> (unacked: u32)
        ensures
            unacked == self@.delivery.unacked,
    {
        self.delivery.unacked()
    }

    /// Whether the client holds a broker connection.
    ///
    /// This reports the link only. A `Connected` reading does not prove that
    /// any particular message arrived: use [`Self::flush`] for that.
    #[must_use]
    pub fn health(&self) -> (health: Health)
        ensures
            health == self@.health,
    {
        self.health
    }

    /// Whether [`Self::flush`] can confirm what this client publishes.
    ///
    /// A publisher client publishes at QoS 1, so the broker acknowledges
    /// every message and a flush reports what a disconnect discarded. An
    /// edge node client publishes at the QoS that Sparkplug fixes, which is
    /// QoS 0 for its births and its data, so the broker acknowledges none of
    /// them and a flush returns `Ok` without confirming anything.
    ///
    /// Assert this once at startup before gating a durable write on a flush.
    #[must_use]
    pub fn tracks_delivery(&self) -> (tracks: bool)
        ensures
            tracks == (self@.identity == IdentityView::Publisher),
    {
        types::wire_options(self.role(), MessageType::DDATA).counted
    }

    // -- the event loop ----------------------------------------------------

    /// Whether the client can count what an event brings.
    #[must_use]
    pub fn can_count(&self, event: LoopEvent) -> (can: bool)
        ensures
            can == can_count(self@, event),
    {
        match event {
            LoopEvent::IncomingDisconnect => self.delivery.can_disconnect(),
            LoopEvent::PollError => {
                self.delivery.can_disconnect() && self.event_loop.consecutive_errors() < u32::MAX
            },
            _ => true,
        }
    }

    /// Take one polled event, and say what the loop does next.
    pub fn on_event(&mut self, event: LoopEvent) -> (step: Step)
        requires
            can_count(old(self)@, event),
        ensures
            final(self)@ == client_after(old(self)@, event),
            step == eventloop::step_of(old(self)@.event_loop, event),
    {
        let step = self.event_loop.step(&mut self.delivery, event);
        if let Some(health) = step.health {
            self.health = health;
        }
        step
    }

    // -- flushing ----------------------------------------------------------

    /// Open the window of a flush.
    #[must_use]
    pub fn open_flush(&self) -> (window: FlushWindow)
        ensures
            window@ == self@.delivery.reported,
    {
        self.delivery.open_flush()
    }

    /// Whether nothing is outstanding, which is what a flush waits for.
    #[must_use]
    pub fn is_drained(&self) -> (drained: bool)
        ensures
            drained == (self@.delivery.unacked == 0),
    {
        self.delivery.is_drained()
    }

    /// Whether a flush that opened with `window` can report.
    #[must_use]
    pub fn can_report(&self, window: &FlushWindow) -> (can: bool)
        ensures
            can == (delivery::can_report(self@.delivery) && window@ <= self@.delivery.reported),
    {
        self.delivery.can_report(window)
    }

    /// Say what a flush saw, once it drained or ran out of time.
    ///
    /// Call this before recording that a message was delivered: for example
    /// before stamping a database row as published, or before a short-lived
    /// process exits.
    ///
    /// # Errors
    ///
    /// Returns [`SparkplugError::PublishLost`] when a disconnect discarded
    /// publishes since the last flush. The broker keeps no session state, so
    /// those messages cannot be resent automatically. Returns
    /// [`SparkplugError::FlushTimeout`] when the broker stayed silent.
    ///
    /// A flush that drains clears the loss record, so each call reports only
    /// what happened since the previous one.
    pub fn flush(&mut self, window: FlushWindow, drained: bool, timeout: Duration) -> (flushed:
        Result<(), SparkplugError>)
        requires
            delivery::can_report(old(self)@.delivery),
            window@ <= old(self)@.delivery.reported,
        ensures
            final(self)@ == (ClientView {
                delivery: if drained {
                    delivery::after_report(old(self)@.delivery)
                } else {
                    old(self)@.delivery
                },
                ..old(self)@
            }),
            match flushed {
                Ok(()) => drained && delivery::loss_since(old(self)@.delivery, window@) == 0,
                Err(SparkplugError::PublishLost { count }) => drained && count
                    == delivery::loss_since(old(self)@.delivery, window@) && count > 0,
                Err(SparkplugError::FlushTimeout { after, unacked }) => !drained && after
                    == timeout && unacked == old(self)@.delivery.unacked,
                Err(_) => false,
            },
    {
        self.delivery.flush(window, drained, timeout)
    }

    // -- stopping ----------------------------------------------------------

    /// Say how a shutdown ended.
    ///
    /// The caller flushes first, then asks the MQTT client to disconnect,
    /// and then watches the health signal until the deadline. `flushed` is
    /// what the flush gave, `requested` what the request gave, and
    /// `last_seen` the health that was seen last, or `None` when the signal
    /// was gone.
    ///
    /// # Errors
    ///
    /// Returns whatever the flush returned. Returns
    /// [`SparkplugError::Disconnect`] when the MQTT client refused the
    /// request, and [`SparkplugError::ShutdownTimeout`] when the flush
    /// succeeded but nothing confirmed the DISCONNECT packet before the
    /// deadline.
    pub fn shutdown(
        self,
        flushed: Result<(), SparkplugError>,
        requested: DisconnectRequest,
        last_seen: Option<Health>,
        timeout: Duration,
    ) -> (outcome: Result<(), SparkplugError>)
        ensures
            outcome == shutdown::outcome_of(
                flushed,
                shutdown::disconnected_of(requested, last_seen),
                timeout,
            ),
    {
        shutdown::shutdown_outcome(
            flushed,
            shutdown::disconnect_outcome(requested, last_seen),
            timeout,
        )
    }
}

// ---------------------------------------------------------------------------
// What holds of every client
// ---------------------------------------------------------------------------

/// A client in the edge node role names an edge node, and only such a client
/// does.
pub proof fn law_the_role_and_the_edge_node_agree(identity: IdentityView)
    ensures
        role_of(identity) == Role::EdgeNode <==> exists|pair: EdgeNodeView|
            identity == IdentityView::EdgeNode(pair),
        role_of(identity) == Role::Publisher <==> identity == IdentityView::Publisher,
{
    if let IdentityView::EdgeNode(pair) = identity {
        assert(identity == IdentityView::EdgeNode(pair));
    }
}

/// An event never changes who the client is nor any `seq` count.
pub proof fn law_an_event_keeps_identity_and_counts(client: ClientView, event: LoopEvent)
    ensures
        client_after(client, event).identity == client.identity,
        client_after(client, event).namespace == client.namespace,
        client_after(client, event).locks == client.locks,
{
}

/// A client with nothing outstanding and nothing lost stays that way,
/// whatever event comes, and a flush on it is clean. An edge node client
/// that sends births and data is such a client.
pub proof fn law_nothing_outstanding_stays_clean(client: ClientView, event: LoopEvent)
    requires
        client.delivery.unacked == 0,
        client.delivery.lost == 0,
        can_count(client, event),
    ensures
        client_after(client, event).delivery.unacked == 0,
        client_after(client, event).delivery.lost == 0,
        delivery::loss_since(client_after(client, event).delivery, client.delivery.reported) == 0,
{
}

/// A client that was just built holds the namespace and the identity it was
/// given, has counted nothing, reads as disconnected, and still waits for
/// its broker.
pub proof fn law_a_fresh_client_has_counted_nothing(
    namespace: Seq<char>,
    identity: IdentityView,
    pair: EdgeNodeView,
)
    ensures
        ({
            let client = fresh_client(namespace, identity);
            &&& client.namespace == namespace
            &&& client.identity == identity
            &&& client.delivery.unacked == 0
            &&& client.delivery.lost == 0
            &&& client.delivery.reported == 0
            &&& client.delivery.generation == 0
            &&& crate::sparkplug::sequence::count_of(client.locks, pair) == 0
            &&& !crate::sparkplug::sequence::is_held(client.locks, pair)
            &&& client.health == Health::Disconnected
            &&& client.event_loop.waiting
            &&& client.event_loop.errors == 0
            &&& DEFAULT_CONNECT_TIMEOUT_SECS == 5
        }),
{
}

/// What an event moves in a client: the counts, the health and what the loop
/// remembers, each as the event says.
pub proof fn law_an_event_moves_what_it_says(client: ClientView, event: LoopEvent)
    requires
        eventloop::loses_everything(event) ==> client.delivery.unacked + client.delivery.lost
            <= u32::MAX && client.delivery.generation < u64::MAX,
    ensures
        ({
            let after = client_after(client, event);
            let lost = event == LoopEvent::IncomingDisconnect || event == LoopEvent::PollError;
            let down = lost || event == LoopEvent::OutgoingDisconnect;
            &&& event == LoopEvent::ConnAck ==> after.health == Health::Connected
            &&& down ==> after.health == Health::Disconnected
            &&& event != LoopEvent::ConnAck && !down ==> after.health == client.health
            &&& lost ==> after.delivery.unacked == 0 && after.delivery.lost == client.delivery.lost
                + client.delivery.unacked && after.delivery.reported == client.delivery.reported
            &&& event == LoopEvent::PubAck && client.delivery.unacked > 0
                ==> after.delivery.unacked == client.delivery.unacked - 1
            &&& event != LoopEvent::PubAck && !lost ==> after.delivery == client.delivery
            &&& after.event_loop.waiting <==> client.event_loop.waiting && event
                != LoopEvent::ConnAck
            &&& after.event_loop == eventloop::loop_after(client.event_loop, event)
            &&& after.delivery == eventloop::delivery_after(client.delivery, event)
        }),
{
}

/// A client takes an event unless a count would not fit.
pub proof fn law_a_client_takes_every_event_that_fits(client: ClientView, event: LoopEvent)
    ensures
        can_count(client, event) <==> {
            &&& event == LoopEvent::IncomingDisconnect || event == LoopEvent::PollError
                ==> client.delivery.unacked + client.delivery.lost <= u32::MAX
                && client.delivery.generation < u64::MAX
            &&& event == LoopEvent::PollError ==> client.event_loop.errors < u32::MAX
        },
{
}

/// What an identity holds is what it was made of.
pub proof fn law_an_identity_shows_its_edge_node(edge_node: OwnedEdgeNode)
    ensures
        Identity::Publisher@ == IdentityView::Publisher,
        Identity::EdgeNode(edge_node)@ == IdentityView::EdgeNode(edge_node@),
        role_of(IdentityView::Publisher) == Role::Publisher,
        role_of(IdentityView::EdgeNode(edge_node@)) == Role::EdgeNode,
{
}

} // verus!
