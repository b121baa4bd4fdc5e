//! What the background MQTT poll loop does with each event.
//!
//! The loop reads one event at a time and applies it to the delivery
//! tracker and the health signal. [`LoopState::step`] decides; the caller
//! polls, sends the signals, writes the log, and sleeps.

use crate::sparkplug::delivery::{self, DeliveryTracker, DeliveryView};
use vstd::prelude::*;

verus! {

/// How many consecutive poll errors make the loop report an error rather
/// than a warning.
pub const MAX_CONSECUTIVE_ERRORS: u32 = 5;

/// How many seconds the loop waits after a poll error before it polls again.
pub const ERROR_BACKOFF_SECS: u64 = 1;

/// One polled event, as far as the loop tells events apart.
#[derive(Debug, Clone, Copy, PartialEq, Eq, Structural)]
pub enum LoopEvent {
    /// The broker accepted the connection.
    ConnAck,
    /// The broker acknowledged a publish.
    PubAck,
    /// The broker closed the connection.
    IncomingDisconnect,
    /// The MQTT client wrote and flushed the DISCONNECT packet.
    OutgoingDisconnect,
    /// Any other event.
    Other,
    /// The poll failed.
    PollError,
}

/// Whether the client currently holds a broker connection.
///
/// This reports the link, not delivery. Use a flush to learn whether
/// specific messages arrived.
#[derive(Debug, Clone, Copy, PartialEq, Eq, Structural)]
pub enum Health {
    Connected,
    Disconnected,
}

/// What the loop writes to its log.
#[derive(Debug, Clone, Copy, PartialEq, Eq, Structural)]
pub enum Report {
    /// Nothing to report.
    Quiet,
    /// The client connected.
    Connected,
    /// The broker closed the connection.
    Disconnected,
    /// A poll failed, for the `errors`th time in a row.
    Failing { errors: u32, severe: bool },
}

/// What the loop does after one event.
#[derive(Debug, Clone, Copy, PartialEq, Eq, Structural)]
pub struct Step {
    /// The health to send, or `None` to leave the signal alone.
    pub health: Option<Health>,
    /// Whether to tell the waiting connect that the connection is up.
    pub ready: bool,
    /// What to write to the log.
    pub report: Report,
    /// How many seconds to wait before the next poll.
    pub back_off_secs: u64,
}

/// Whether an event loses everything outstanding.
pub open spec fn loses_everything(event: LoopEvent) -> bool {
    event == LoopEvent::IncomingDisconnect || event == LoopEvent::PollError
}

/// What an event does to the counts.
pub open spec fn delivery_after(d: DeliveryView, event: LoopEvent) -> DeliveryView {
    if event == LoopEvent::PubAck {
        delivery::after_ack(d)
    } else if loses_everything(event) {
        delivery::after_disconnect(d)
    } else {
        d
    }
}

/// The health an event shows, or `None` when it shows none.
pub open spec fn health_shown(event: LoopEvent) -> Option<Health> {
    match event {
        LoopEvent::ConnAck => Some(Health::Connected),
        LoopEvent::IncomingDisconnect | LoopEvent::OutgoingDisconnect | LoopEvent::PollError => Some(
            Health::Disconnected,
        ),
        _ => None,
    }
}

/// Apply one polled event to the delivery tracker.
pub fn apply_event(delivery: &mut DeliveryTracker, event: LoopEvent)
    requires
        loses_everything(event) ==> delivery::can_disconnect(old(delivery)@),
    ensures
        final(delivery)@ == delivery_after(old(delivery)@, event),
{
    match event {
        LoopEvent::PubAck => delivery.record_ack(),
        LoopEvent::IncomingDisconnect | LoopEvent::PollError => delivery.record_disconnect(),
        _ => {},
    }
}

/// The health one polled event shows.
///
/// An MQTT client reports an outgoing DISCONNECT only after it writes and
/// flushes the packet, so that event proves the packet left the socket. A
/// shutdown waits for it.
#[must_use]
pub fn apply_health(event: LoopEvent) -> (health: Option<Health>)
    ensures
        health == health_shown(event),
{
    match event {
        LoopEvent::ConnAck => Some(Health::Connected),
        LoopEvent::IncomingDisconnect | LoopEvent::OutgoingDisconnect | LoopEvent::PollError => {
            Some(Health::Disconnected)
        },
        _ => None,
    }
}

/// What the loop remembers between events.
#[derive(Debug)]
pub struct LoopState {
    waiting: bool,
    consecutive_errors: u32,
}

/// What a [`LoopState`] holds.
pub struct LoopView {
    /// Whether a connect still waits for the first ConnAck.
    pub waiting: bool,
    /// How many polls failed since the last one that did not.
    pub errors: nat,
}

/// A loop that has polled nothing.
pub open spec fn loop_start() -> LoopView {
    LoopView { waiting: true, errors: 0 }
}

/// What the loop remembers after an event.
///
/// A poll error counts. A closed connection leaves the count, and every
/// other event starts it again.
pub open spec fn loop_after(state: LoopView, event: LoopEvent) -> LoopView {
    LoopView {
        waiting: state.waiting && event != LoopEvent::ConnAck,
        errors: match event {
            LoopEvent::PollError => state.errors + 1,
            LoopEvent::IncomingDisconnect => state.errors,
            _ => 0,
        },
    }
}

/// What the loop does after an event.
pub open spec fn step_of(state: LoopView, event: LoopEvent) -> Step {
    let errors = loop_after(state, event).errors;
    Step {
        health: health_shown(event),
        ready: state.waiting && event == LoopEvent::ConnAck,
        report: match event {
            LoopEvent::ConnAck => Report::Connected,
            LoopEvent::IncomingDisconnect => Report::Disconnected,
            LoopEvent::PollError => Report::Failing {
                errors: errors as u32,
                severe: errors >= MAX_CONSECUTIVE_ERRORS,
            },
            _ => Report::Quiet,
        },
        back_off_secs: if event == LoopEvent::PollError {
            ERROR_BACKOFF_SECS
        } else {
            0
        },
    }
}

impl View for LoopState {
    type V = LoopView;

    closed spec fn view(&self) -> LoopView {
        LoopView { waiting: self.waiting, errors: self.consecutive_errors as nat }
    }
}

impl Default for LoopState {
    fn default() -> (state: Self)
        ensures
            state@ == loop_start(),
    {
        LoopState::new()
    }
}

impl LoopState {
    /// Build the state of a loop that has polled nothing.
    #[must_use]
    pub fn new() -> (state: Self)
        ensures
            state@ == loop_start(),
    {
        LoopState { waiting: true, consecutive_errors: 0 }
    }

    /// How many polls failed since the last one that did not.
    #[must_use]
    pub fn consecutive_errors(&self) -> (errors: u32)
        ensures
            errors == self@.errors,
    {
        self.consecutive_errors
    }

    /// Take one polled event: bring the counts up to date and say what to
    /// do.
    ///
    /// The loop never ends on its own. A poll error is not fatal: it backs
    /// off and polls again, because the MQTT client reconnects underneath.
    pub fn step(&mut self, delivery: &mut DeliveryTracker, event: LoopEvent) -> (step: Step)
        requires
            loses_everything(event) ==> delivery::can_disconnect(old(delivery)@),
            event == LoopEvent::PollError ==> old(self)@.errors < u32::MAX,
        ensures
            final(self)@ == loop_after(old(self)@, event),
            final(delivery)@ == delivery_after(old(delivery)@, event),
            step == step_of(old(self)@, event),
    {
        apply_event(delivery, event);
        let health = apply_health(event);
        match event {
            LoopEvent::ConnAck => {
                let ready = self.waiting;
                self.waiting = false;
                self.consecutive_errors = 0;
                Step { health, ready, report: Report::Connected, back_off_secs: 0 }
            },
            LoopEvent::IncomingDisconnect => {
                Step { health, ready: false, report: Report::Disconnected, back_off_secs: 0 }
            },
            LoopEvent::PollError => {
                self.consecutive_errors = self.consecutive_errors + 1;
                let errors: u32 = self.consecutive_errors;
                let severe = errors >= MAX_CONSECUTIVE_ERRORS;
                Step {
                    health,
                    ready: false,
                    report: Report::Failing { errors, severe },
                    back_off_secs: ERROR_BACKOFF_SECS,
                }
            },
            _ => {
                self.consecutive_errors = 0;
                Step { health, ready: false, report: Report::Quiet, back_off_secs: 0 }
            },
        }
    }
}

// ---------------------------------------------------------------------------
// What holds of every run
// ---------------------------------------------------------------------------

/// What the loop remembers after a run of events.
pub open spec fn loop_after_all(events: Seq<LoopEvent>) -> LoopView
    decreases events.len(),
{
    if events.len() == 0 {
        loop_start()
    } else {
        loop_after(loop_after_all(events.drop_last()), events.last())
    }
}

/// The health signal after a run of events. It starts out disconnected.
pub open spec fn health_after_all(events: Seq<LoopEvent>) -> Health
    decreases events.len(),
{
    if events.len() == 0 {
        Health::Disconnected
    } else {
        match health_shown(events.last()) {
            Some(health) => health,
            None => health_after_all(events.drop_last()),
        }
    }
}

/// The waiting connect is told once: by the first ConnAck, whatever came
/// before it, and by no event after that.
pub proof fn law_the_first_connack_releases_the_connect(events: Seq<LoopEvent>, event: LoopEvent)
    ensures
        step_of(loop_after_all(events), event).ready <==> event == LoopEvent::ConnAck && forall|
            i: int,
        |
            0 <= i < events.len() ==> #[trigger] events[i] != LoopEvent::ConnAck,
{
    lemma_waiting(events);
}

proof fn lemma_waiting(events: Seq<LoopEvent>)
    ensures
        loop_after_all(events).waiting <==> forall|i: int|
            0 <= i < events.len() ==> #[trigger] events[i] != LoopEvent::ConnAck,
    decreases events.len(),
{
    if events.len() > 0 {
        let before = events.drop_last();
        lemma_waiting(before);
        assert(events[events.len() - 1] == events.last());
        if loop_after_all(before).waiting {
            assert forall|i: int|
                0 <= i < events.len() - 1 implies #[trigger] events[i] != LoopEvent::ConnAck by {
                assert(before[i] == events[i]);
            }
        } else {
            let i = choose|i: int| 0 <= i < before.len() && #[trigger] before[i] == LoopEvent::ConnAck;
            assert(events[i] == before[i]);
        }
    }
}

/// Every event short of a poll error or a closed connection starts the error
/// count again, and `times` poll errors after it count `times`. So the loop
/// reports a severe error from the fifth on.
pub proof fn law_errors_in_a_row_escalate(state: LoopView, times: nat)
    requires
        state.errors == 0,
    ensures
        errors_in_a_row(state, times).errors == times,
        errors_in_a_row(state, times).waiting == state.waiting,
        times >= 1 ==> step_of(
            errors_in_a_row(state, (times - 1) as nat),
            LoopEvent::PollError,
        ).report == (Report::Failing {
            errors: times as u32,
            severe: times >= MAX_CONSECUTIVE_ERRORS,
        }),
    decreases times,
{
    if times > 0 {
        law_errors_in_a_row_escalate(state, (times - 1) as nat);
    }
}

/// What the loop remembers after poll errors in a row.
pub open spec fn errors_in_a_row(state: LoopView, times: nat) -> LoopView
    decreases times,
{
    if times == 0 {
        state
    } else {
        loop_after(errors_in_a_row(state, (times - 1) as nat), LoopEvent::PollError)
    }
}

/// Every poll error backs off, and nothing else does.
pub proof fn law_only_a_poll_error_backs_off(state: LoopView, event: LoopEvent)
    ensures
        step_of(state, event).back_off_secs == if event == LoopEvent::PollError {
            1u64
        } else {
            0u64
        },
{
}

/// The link reads as connected when, and only when, the last event that
/// shows anything is a ConnAck.
pub proof fn law_the_last_event_that_shows_health_decides(
    events: Seq<LoopEvent>,
    shown: int,
)
    requires
        0 <= shown < events.len(),
        health_shown(events[shown]) is Some,
        forall|i: int| shown < i < events.len() ==> health_shown(#[trigger] events[i]) is None,
    ensures
        Some(health_after_all(events)) == health_shown(events[shown]),
        health_after_all(events) == Health::Connected <==> events[shown] == LoopEvent::ConnAck,
    decreases events.len(),
{
    if shown < events.len() - 1 {
        let before = events.drop_last();
        assert(health_shown(events[events.len() - 1]) is None);
        assert forall|i: int| shown < i < before.len() implies health_shown(
            #[trigger] before[i],
        ) is None by {
            assert(before[i] == events[i]);
        }
        law_the_last_event_that_shows_health_decides(before, shown);
    }
}

/// Whatever loses the outstanding publishes also shows the link as down, so
/// a reader of the health signal never sees a connected link that has just
/// lost them.
pub proof fn law_a_loss_shows_a_dead_link(event: LoopEvent)
    requires
        loses_everything(event),
    ensures
        health_shown(event) == Some(Health::Disconnected),
{
}

/// What each event does to the counts: an acknowledgement clears one publish,
/// a closed connection and a failed poll lose everything outstanding, and
/// nothing else moves a count. A DISCONNECT that this client wrote loses
/// nothing.
pub proof fn law_what_each_event_does_to_the_counts(d: DeliveryView, event: LoopEvent)
    requires
        loses_everything(event) ==> d.unacked + d.lost <= u32::MAX && d.generation < u64::MAX,
    ensures
        event == LoopEvent::PubAck && d.unacked > 0 ==> delivery_after(d, event).unacked
            == d.unacked - 1,
        event == LoopEvent::PubAck && d.unacked == 0 ==> delivery_after(d, event).unacked == 0,
        event == LoopEvent::PubAck ==> delivery_after(d, event).lost == d.lost
            && delivery_after(d, event).generation == d.generation,
        event == LoopEvent::IncomingDisconnect || event == LoopEvent::PollError ==> {
            &&& delivery_after(d, event).unacked == 0
            &&& delivery_after(d, event).lost == d.lost + d.unacked
            &&& delivery_after(d, event).generation == d.generation + 1
        },
        event == LoopEvent::ConnAck || event == LoopEvent::OutgoingDisconnect || event
            == LoopEvent::Other ==> delivery_after(d, event) == d,
        delivery_after(d, event).reported == d.reported,
        loses_everything(event) <==> event == LoopEvent::IncomingDisconnect || event
            == LoopEvent::PollError,
{
}

/// What each event shows of the link: a ConnAck that it is up, a DISCONNECT
/// in either direction and a failed poll that it is down, and anything else
/// nothing.
pub proof fn law_what_each_event_shows_of_the_link(event: LoopEvent)
    ensures
        health_shown(event) == Some(Health::Connected) <==> event == LoopEvent::ConnAck,
        health_shown(event) == Some(Health::Disconnected) <==> event
            == LoopEvent::IncomingDisconnect || event == LoopEvent::OutgoingDisconnect || event
            == LoopEvent::PollError,
        health_shown(event) is None <==> event == LoopEvent::PubAck || event == LoopEvent::Other,
{
}

/// What the loop remembers of each event: whether a connect still waits, and
/// how many polls failed in a row. A closed connection leaves that count,
/// and every other event but a failed poll starts it again.
pub proof fn law_what_the_loop_remembers(state: LoopView, event: LoopEvent)
    ensures
        loop_after(state, event).waiting <==> state.waiting && event != LoopEvent::ConnAck,
        event == LoopEvent::PollError ==> loop_after(state, event).errors == state.errors + 1,
        event == LoopEvent::IncomingDisconnect ==> loop_after(state, event).errors
            == state.errors,
        event != LoopEvent::PollError && event != LoopEvent::IncomingDisconnect ==> loop_after(
            state,
            event,
        ).errors == 0,
        loop_start().waiting,
        loop_start().errors == 0,
{
}

/// What the loop does with each event, and when it calls an error severe:
/// from the fifth failed poll in a row on.
pub proof fn law_what_the_loop_does(state: LoopView, event: LoopEvent)
    requires
        state.errors < u32::MAX,
    ensures
        step_of(state, event).health == health_shown(event),
        step_of(state, event).ready <==> state.waiting && event == LoopEvent::ConnAck,
        step_of(state, event).report == Report::Connected <==> event == LoopEvent::ConnAck,
        step_of(state, event).report == Report::Disconnected <==> event
            == LoopEvent::IncomingDisconnect,
        event == LoopEvent::PollError ==> (step_of(state, event).report matches Report::Failing {
            errors,
            severe,
        } && errors == state.errors + 1 && (severe <==> errors >= 5)),
        step_of(state, event).report == Report::Quiet <==> event == LoopEvent::PubAck || event
            == LoopEvent::OutgoingDisconnect || event == LoopEvent::Other,
        event == LoopEvent::PollError ==> step_of(state, event).back_off_secs == 1,
        event != LoopEvent::PollError ==> step_of(state, event).back_off_secs == 0,
{
}

} // verus!
