//! Tracks whether published messages reached the broker.
//!
//! An MQTT client accepts a publish into an in-memory channel and returns
//! immediately. Sparkplug requires a clean session, so a reconnect discards
//! everything still queued or unacknowledged. This tracker counts what is
//! outstanding and records when a disconnect throws it away, so a flush can
//! tell a caller the truth.
//!
//! A flush has two ends. [`DeliveryTracker::open_flush`] opens its window.
//! The caller then waits until [`DeliveryTracker::is_drained`] or its
//! deadline, and [`DeliveryTracker::flush`] says what the window saw.

use crate::error::SparkplugError;
use std::time::Duration;
use vstd::prelude::*;

verus! {

// ---------------------------------------------------------------------------
// What the tracker counts
// ---------------------------------------------------------------------------

/// What a [`DeliveryTracker`] holds.
pub struct DeliveryView {
    /// QoS 1 publishes enqueued but not yet acknowledged by the broker.
    pub unacked: u32,
    /// Publishes a disconnect discarded that no flush has reported yet.
    pub lost: u32,
    /// Every publish that a flush has reported as lost, since the start.
    pub reported: u64,
    /// How many disconnects there were.
    pub generation: u64,
}

/// A tracker that has counted nothing.
pub open spec fn nothing_counted() -> DeliveryView {
    DeliveryView { unacked: 0, lost: 0, reported: 0, generation: 0 }
}

/// Whether one more publish can be counted.
pub open spec fn has_room(d: DeliveryView) -> bool {
    d.unacked < u32::MAX
}

/// Whether one more disconnect can be counted.
pub open spec fn can_disconnect(d: DeliveryView) -> bool {
    d.lost + d.unacked <= u32::MAX && d.generation < u64::MAX
}

/// Whether a flush can add its loss to the total.
pub open spec fn can_report(d: DeliveryView) -> bool {
    d.reported + d.lost <= u64::MAX
}

/// One publish more is outstanding.
pub open spec fn after_publish(d: DeliveryView) -> DeliveryView {
    DeliveryView { unacked: (d.unacked + 1) as u32, ..d }
}

/// One publish fewer is outstanding, if any was.
pub open spec fn after_ack(d: DeliveryView) -> DeliveryView {
    DeliveryView { unacked: if d.unacked > 0 { (d.unacked - 1) as u32 } else { 0 }, ..d }
}

/// A publish that was counted in `generation` never left.
///
/// A disconnect since then already cleared its count, and any count left
/// belongs to another publish.
pub open spec fn after_refusal(d: DeliveryView, generation: u64) -> DeliveryView {
    if generation == d.generation {
        after_ack(d)
    } else {
        d
    }
}

/// A disconnect discarded everything outstanding.
pub open spec fn after_disconnect(d: DeliveryView) -> DeliveryView {
    DeliveryView {
        unacked: 0,
        lost: (d.lost + d.unacked) as u32,
        reported: d.reported,
        generation: (d.generation + 1) as u64,
    }
}

/// A flush reported every loss there was.
pub open spec fn after_report(d: DeliveryView) -> DeliveryView {
    DeliveryView { lost: 0, reported: (d.reported + d.lost) as u64, ..d }
}

/// How many publishes a flush that opened at `opened_at` reports as lost, in
/// 32 bits.
pub open spec fn loss_since(d: DeliveryView, opened_at: u64) -> u32 {
    let loss = d.reported + d.lost - opened_at;
    if loss <= u32::MAX {
        loss as u32
    } else {
        u32::MAX
    }
}

// ---------------------------------------------------------------------------
// DeliveryTracker
// ---------------------------------------------------------------------------

/// Proof that a publish raised the outstanding count.
///
/// [`DeliveryTracker::record_publish`] returns one, and
/// [`DeliveryTracker::record_publish_failed`] consumes it. The type is
/// neither `Copy` nor `Clone`, so one publish can roll back at most once.
#[derive(Debug)]
#[must_use]
pub struct PublishTicket {
    generation: u64,
}

impl View for PublishTicket {
    type V = u64;

    /// The generation the tracker held when it counted this publish.
    closed spec fn view(&self) -> u64 {
        self.generation
    }
}

/// One counted publish on its way to the MQTT client.
///
/// [`DeliveryTracker::publish_in_flight`] counts the publish and returns
/// this. [`DeliveryTracker::end_publish`] takes it back: the count stays when
/// the client took the message, and goes when the client refused it or the
/// publish was cancelled. So a message that never left holds no later flush
/// open.
#[derive(Debug)]
#[must_use]
pub struct PublishInFlight {
    ticket: PublishTicket,
}

impl View for PublishInFlight {
    type V = u64;

    /// The generation the tracker held when it counted this publish.
    closed spec fn view(&self) -> u64 {
        self.ticket@
    }
}

/// When a flush opened.
///
/// The total it holds is the loss reported before, so a flush reports only
/// the loss inside its own window, and two flushes that overlap both learn
/// about the same disconnect.
#[derive(Debug, Clone, Copy, PartialEq, Eq)]
pub struct FlushWindow {
    opened_at: u64,
}

impl View for FlushWindow {
    type V = u64;

    /// The total reported when this window opened.
    closed spec fn view(&self) -> u64 {
        self.opened_at
    }
}

/// Counts unacknowledged publishes and records disconnect losses.
#[derive(Debug)]
pub struct DeliveryTracker {
    unacked: u32,
    lost: u32,
    reported: u64,
    generation: u64,
}

impl View for DeliveryTracker {
    type V = DeliveryView;

    closed spec fn view(&self) -> DeliveryView {
        DeliveryView {
            unacked: self.unacked,
            lost: self.lost,
            reported: self.reported,
            generation: self.generation,
        }
    }
}

impl Default for DeliveryTracker {
    fn default() -> (tracker: Self)
        ensures
            tracker@ == nothing_counted(),
    {
        DeliveryTracker::new()
    }
}

impl DeliveryTracker {
    /// Build a tracker that has counted nothing.
    #[must_use]
    pub fn new() -> (tracker: Self)
        ensures
            tracker@ == nothing_counted(),
    {
        DeliveryTracker { unacked: 0, lost: 0, reported: 0, generation: 0 }
    }

    /// Whether one more publish can be counted: fewer than `u32::MAX` are
    /// outstanding.
    #[must_use]
    pub fn has_room(&self) -> (room: bool)
        ensures
            room == has_room(self@),
    {
        self.unacked < u32::MAX
    }

    /// Whether one more disconnect can be counted, and its loss with it.
    #[must_use]
    pub fn can_disconnect(&self) -> (can: bool)
        ensures
            can == can_disconnect(self@),
    {
        self.unacked <= u32::MAX - self.lost && self.generation < u64::MAX
    }

    /// Whether a flush that opened with `window` can report: the total still
    /// fits, and the window is not ahead of it.
    #[must_use]
    pub fn can_report(&self, window: &FlushWindow) -> (can: bool)
        ensures
            can == (can_report(self@) && window@ <= self@.reported),
    {
        self.lost as u64 <= u64::MAX - self.reported && window.opened_at <= self.reported
    }

    /// Count one QoS 1 publish before the caller hands it to the MQTT
    /// client.
    ///
    /// Count first, then publish. A flush can run while the publish is still
    /// in flight, and a count that rises afterwards lets that flush report
    /// success for a message the broker never saw.
    ///
    /// Do not call this for QoS 0. The broker never acknowledges QoS 0, so a
    /// counted message would never clear.
    pub fn record_publish(&mut self) -> (ticket: PublishTicket)
        requires
            has_room(old(self)@),
        ensures
            final(self)@ == after_publish(old(self)@),
            final(self)@ == (DeliveryView {
                unacked: (old(self)@.unacked + 1) as u32,
                ..old(self)@
            }),
            ticket@ == old(self)@.generation,
    {
        self.unacked = self.unacked + 1;
        PublishTicket { generation: self.generation }
    }

    /// Clear one publish that the broker acknowledged.
    pub fn record_ack(&mut self)
        ensures
            final(self)@ == after_ack(old(self)@),
    {
        self.unacked = self.unacked.saturating_sub(1);
    }

    /// Roll back one count after the MQTT client refuses a publish.
    ///
    /// The caller counts the publish before the client sees it, so a refusal
    /// leaves a count for a message that never left. Undo it.
    ///
    /// A disconnect between the two calls already cleared that count, and
    /// any count left belongs to another publish. The ticket carries the
    /// generation, so this rolls back nothing once a disconnect intervenes.
    pub fn record_publish_failed(&mut self, ticket: PublishTicket)
        ensures
            final(self)@ == after_refusal(old(self)@, ticket@),
    {
        if ticket.generation == self.generation {
            self.unacked = self.unacked.saturating_sub(1);
        }
    }

    /// Count one QoS 1 publish that is about to go to the MQTT client.
    pub fn publish_in_flight(&mut self) -> (in_flight: PublishInFlight)
        requires
            has_room(old(self)@),
        ensures
            final(self)@ == after_publish(old(self)@),
            in_flight@ == old(self)@.generation,
    {
        PublishInFlight { ticket: self.record_publish() }
    }

    /// End a publish that was in flight.
    ///
    /// `taken` says whether the MQTT client took the message. The count then
    /// stays outstanding, because the broker answers a QoS 1 publish.
    /// Otherwise the count goes, by the rule of
    /// [`Self::record_publish_failed`].
    pub fn end_publish(&mut self, in_flight: PublishInFlight, taken: bool)
        ensures
            final(self)@ == if taken {
                old(self)@
            } else {
                after_refusal(old(self)@, in_flight@)
            },
    {
        if !taken {
            self.record_publish_failed(in_flight.ticket);
        }
    }

    /// Record that a disconnect discarded every outstanding publish.
    ///
    /// This is unconditional rather than a guess. Under a clean session the
    /// MQTT client clears its pending list when it connects again, so a
    /// disconnect with outstanding publishes always loses them.
    pub fn record_disconnect(&mut self)
        requires
            can_disconnect(old(self)@),
        ensures
            final(self)@ == after_disconnect(old(self)@),
            final(self)@.unacked == 0,
            final(self)@.lost == old(self)@.lost + old(self)@.unacked,
            final(self)@.reported == old(self)@.reported,
            final(self)@.generation == old(self)@.generation + 1,
    {
        self.lost = self.lost + self.unacked;
        self.unacked = 0;
        self.generation = self.generation + 1;
    }

    /// How many publishes the broker has not acknowledged yet.
    #[must_use]
    pub fn unacked(&self) -> (unacked: u32)
        ensures
            unacked == self@.unacked,
    {
        self.unacked
    }

    /// Whether nothing is outstanding, which is what a flush waits for.
    #[must_use]
    pub fn is_drained(&self) -> (drained: bool)
        ensures
            drained == (self@.unacked == 0),
    {
        self.unacked == 0
    }

    /// Open the window of a flush.
    #[must_use]
    pub fn open_flush(&self) -> (window: FlushWindow)
        ensures
            window@ == self@.reported,
    {
        FlushWindow { opened_at: self.reported }
    }

    /// Say what a flush saw, once it drained or ran out of time.
    ///
    /// `drained` says whether nothing was outstanding at some instant before
    /// `timeout` ran out.
    ///
    /// # Errors
    ///
    /// Returns [`SparkplugError::PublishLost`] when a disconnect discarded
    /// publishes since the last flush, and [`SparkplugError::FlushTimeout`]
    /// when the broker stayed silent.
    ///
    /// A flush that drains clears the loss record, so each call reports only
    /// what happened since the previous one. Two flushes that overlap in
    /// time both report a disconnect that falls inside both windows. Only a
    /// flush that opens after the disconnect is reported sees a clean
    /// result.
    pub fn flush(&mut self, window: FlushWindow, drained: bool, timeout: Duration) -> (flushed:
        Result<(), SparkplugError>)
        requires
            can_report(old(self)@),
            window@ <= old(self)@.reported,
        ensures
            final(self)@ == if drained {
                after_report(old(self)@)
            } else {
                old(self)@
            },
            flushed is Ok <==> drained && old(self)@.reported + old(self)@.lost == window@,
            match flushed {
                Ok(()) => drained && loss_since(old(self)@, window@) == 0,
                Err(SparkplugError::PublishLost { count }) => drained && count == loss_since(
                    old(self)@,
                    window@,
                ) && count > 0,
                Err(SparkplugError::FlushTimeout { after, unacked }) => !drained && after
                    == timeout && unacked == old(self)@.unacked,
                Err(_) => false,
            },
    {
        if !drained {
            return Err(SparkplugError::FlushTimeout { after: timeout, unacked: self.unacked });
        }
        self.reported = self.reported + self.lost as u64;
        self.lost = 0;
        let loss: u64 = self.reported - window.opened_at;
        let count: u32 = if loss <= u32::MAX as u64 {
            loss as u32
        } else {
            u32::MAX
        };
        if count == 0 {
            Ok(())
        } else {
            Err(SparkplugError::PublishLost { count })
        }
    }
}

// ---------------------------------------------------------------------------
// What holds of every count
// ---------------------------------------------------------------------------

/// A publish the MQTT client refuses leaves the tracker as it was.
pub proof fn law_a_refusal_undoes_its_publish(d: DeliveryView)
    requires
        has_room(d),
    ensures
        after_refusal(after_publish(d), d.generation) == d,
{
}

/// A refusal that comes after a disconnect rolls back nothing, so it can
/// never cancel the count of another publish.
pub proof fn law_a_refusal_after_a_disconnect_rolls_back_nothing(
    d: DeliveryView,
    later: DeliveryView,
)
    requires
        can_disconnect(d),
        later.generation >= after_disconnect(d).generation,
    ensures
        after_refusal(later, d.generation) == later,
{
}

/// An acknowledged publish leaves the tracker as it was before the publish.
pub proof fn law_an_ack_clears_one_publish(d: DeliveryView)
    requires
        has_room(d),
    ensures
        after_ack(after_publish(d)) == d,
{
}

/// An acknowledgement with nothing outstanding changes nothing.
pub proof fn law_an_ack_with_nothing_outstanding_changes_nothing(d: DeliveryView)
    requires
        d.unacked == 0,
    ensures
        after_ack(d) == d,
{
}

/// A disconnect and a flush neither invent nor forget a publish: what is
/// outstanding, lost or reported adds up to the same number.
pub proof fn law_no_publish_is_forgotten(d: DeliveryView)
    ensures
        can_disconnect(d) ==> after_disconnect(d).unacked + after_disconnect(d).lost
            + after_disconnect(d).reported == d.unacked + d.lost + d.reported,
        can_report(d) ==> after_report(d).unacked + after_report(d).lost + after_report(d).reported
            == d.unacked + d.lost + d.reported,
{
}

/// A flush that opens, sees a disconnect, and then drains reports every
/// publish that was outstanding at the disconnect, besides the losses no
/// flush had reported when it opened.
pub proof fn law_a_flush_reports_what_the_disconnect_discarded(d: DeliveryView)
    requires
        can_disconnect(d),
    ensures
        loss_since(after_disconnect(d), d.reported) == d.lost + d.unacked,
{
}

/// Two flushes whose windows overlap report the same loss: the one that
/// drains second still sees what the first one reported.
pub proof fn law_overlapping_flushes_report_the_same_loss(d: DeliveryView, opened_at: u64)
    requires
        can_report(d),
        opened_at <= d.reported,
    ensures
        loss_since(after_report(d), opened_at) == loss_since(d, opened_at),
{
}

/// A flush that opens after the loss was reported is clean, until the next
/// disconnect.
pub proof fn law_a_reported_loss_is_not_reported_again(d: DeliveryView)
    requires
        can_report(d),
    ensures
        loss_since(after_report(d), after_report(d).reported) == 0,
{
}

// ---------------------------------------------------------------------------
// What holds of a whole run
// ---------------------------------------------------------------------------

/// One thing that can happen to a tracker.
pub enum Occurrence {
    /// A publish was counted.
    Publish,
    /// The broker acknowledged a publish.
    Ack,
    /// The MQTT client refused a publish that was counted in a generation.
    Refusal(u64),
    /// The connection dropped.
    Disconnect,
    /// A flush drained and reported.
    Report,
}

/// A tracker, and what became of every publish it counted.
pub struct Tally {
    pub tracker: DeliveryView,
    /// How many publishes were counted.
    pub published: nat,
    /// How many of them the broker acknowledged.
    pub acknowledged: nat,
    /// How many of them never left.
    pub rolled_back: nat,
}

/// A tally after one occurrence. What the tracker has no room to count does
/// not occur.
pub open spec fn tally_after(tally: Tally, occurrence: Occurrence) -> Tally {
    let d = tally.tracker;
    match occurrence {
        Occurrence::Publish => if has_room(d) {
            Tally { tracker: after_publish(d), published: tally.published + 1, ..tally }
        } else {
            tally
        },
        Occurrence::Ack => Tally {
            tracker: after_ack(d),
            acknowledged: tally.acknowledged + if d.unacked > 0 {
                1nat
            } else {
                0nat
            },
            ..tally
        },
        Occurrence::Refusal(generation) => Tally {
            tracker: after_refusal(d, generation),
            rolled_back: tally.rolled_back + if generation == d.generation && d.unacked > 0 {
                1nat
            } else {
                0nat
            },
            ..tally
        },
        Occurrence::Disconnect => if can_disconnect(d) {
            Tally { tracker: after_disconnect(d), ..tally }
        } else {
            tally
        },
        Occurrence::Report => if can_report(d) {
            Tally { tracker: after_report(d), ..tally }
        } else {
            tally
        },
    }
}

/// A tally after every occurrence, from a tracker that has counted nothing.
pub open spec fn tally_of(occurrences: Seq<Occurrence>) -> Tally
    decreases occurrences.len(),
{
    if occurrences.len() == 0 {
        Tally { tracker: nothing_counted(), published: 0, acknowledged: 0, rolled_back: 0 }
    } else {
        tally_after(tally_of(occurrences.drop_last()), occurrences.last())
    }
}

/// Every publish is accounted for, always: it was acknowledged, never left,
/// is outstanding, was lost, or was reported as lost.
pub proof fn law_every_publish_is_accounted_for(occurrences: Seq<Occurrence>)
    ensures
        ({
            let tally = tally_of(occurrences);
            tally.published == tally.acknowledged + tally.rolled_back + tally.tracker.unacked
                + tally.tracker.lost + tally.tracker.reported
        }),
    decreases occurrences.len(),
{
    if occurrences.len() > 0 {
        law_every_publish_is_accounted_for(occurrences.drop_last());
    }
}

/// A clean flush confirms delivery. When its window opened at `opened_at`,
/// nothing is outstanding, and it sees no loss, the broker acknowledged
/// every publish there ever was, short of those that never left and those
/// that flushes had reported as lost before it opened.
pub proof fn law_a_clean_flush_confirms_every_publish(
    occurrences: Seq<Occurrence>,
    opened_at: u64,
)
    requires
        tally_of(occurrences).tracker.unacked == 0,
        opened_at <= tally_of(occurrences).tracker.reported,
        loss_since(tally_of(occurrences).tracker, opened_at) == 0,
    ensures
        tally_of(occurrences).published == tally_of(occurrences).acknowledged
            + tally_of(occurrences).rolled_back + opened_at,
{
    law_every_publish_is_accounted_for(occurrences);
}

// ---------------------------------------------------------------------------
// What each occurrence moves, count by count
// ---------------------------------------------------------------------------

/// A publish moves the outstanding count up by one, and nothing else.
pub proof fn law_a_publish_is_outstanding(d: DeliveryView)
    requires
        d.unacked < u32::MAX,
    ensures
        has_room(d),
        after_publish(d).unacked == d.unacked + 1,
        after_publish(d).lost == d.lost,
        after_publish(d).reported == d.reported,
        after_publish(d).generation == d.generation,
{
}

/// An acknowledgement moves the outstanding count down by one, unless it is
/// zero, and nothing else.
pub proof fn law_an_ack_moves_one_count(d: DeliveryView)
    ensures
        d.unacked > 0 ==> after_ack(d).unacked == d.unacked - 1,
        d.unacked == 0 ==> after_ack(d).unacked == 0,
        after_ack(d).lost == d.lost,
        after_ack(d).reported == d.reported,
        after_ack(d).generation == d.generation,
{
}

/// A refusal moves the outstanding count down by one when no disconnect came
/// between, as an acknowledgement would, and moves nothing otherwise. It
/// reports nothing and loses nothing.
pub proof fn law_a_refusal_moves_one_count(d: DeliveryView, generation: u64)
    ensures
        generation == d.generation && d.unacked > 0 ==> after_refusal(d, generation).unacked
            == d.unacked - 1,
        generation != d.generation || d.unacked == 0 ==> after_refusal(d, generation).unacked
            == d.unacked,
        after_refusal(d, generation).lost == d.lost,
        after_refusal(d, generation).reported == d.reported,
        after_refusal(d, generation).generation == d.generation,
{
}

/// A disconnect loses everything outstanding and reports nothing, so a flush
/// that opens after it still reports every publish it discarded.
pub proof fn law_a_disconnect_reports_nothing(d: DeliveryView)
    requires
        can_disconnect(d),
    ensures
        after_disconnect(d).unacked == 0,
        after_disconnect(d).lost == d.lost + d.unacked,
        after_disconnect(d).reported == d.reported,
        after_disconnect(d).generation == d.generation + 1,
        loss_since(after_disconnect(d), after_disconnect(d).reported) == d.lost + d.unacked,
{
}

/// A flush that drained moves every loss to the reported ones, and leaves
/// what is outstanding.
pub proof fn law_a_report_moves_every_loss(d: DeliveryView)
    requires
        can_report(d),
    ensures
        after_report(d).lost == 0,
        after_report(d).reported == d.reported + d.lost,
        after_report(d).unacked == d.unacked,
        after_report(d).generation == d.generation,
{
}

/// A window reports what was lost since it opened, whole as long as it fits
/// 32 bits, and the largest number there is otherwise.
pub proof fn law_a_window_reports_its_own_loss(d: DeliveryView, opened_at: u64)
    requires
        opened_at <= d.reported,
    ensures
        d.reported + d.lost - opened_at <= u32::MAX ==> loss_since(d, opened_at) == d.reported
            + d.lost - opened_at,
        d.reported + d.lost - opened_at > u32::MAX ==> loss_since(d, opened_at) == u32::MAX,
        loss_since(d, d.reported) == d.lost,
{
}

/// The counts run out only where the next one would not fit.
pub proof fn law_only_a_full_count_has_no_room(d: DeliveryView)
    ensures
        has_room(d) <==> d.unacked != u32::MAX,
        can_disconnect(d) <==> d.unacked + d.lost <= u32::MAX && d.generation != u64::MAX,
        can_report(d) <==> d.lost + d.reported <= u64::MAX,
        nothing_counted().unacked == 0,
        nothing_counted().lost == 0,
        nothing_counted().reported == 0,
        nothing_counted().generation == 0,
{
}

/// A tracker after a run of occurrences.
pub open spec fn tracker_after(d: DeliveryView, occurrences: Seq<Occurrence>) -> DeliveryView
    decreases occurrences.len(),
{
    if occurrences.len() == 0 {
        d
    } else {
        let before = tracker_after(d, occurrences.drop_last());
        tally_after(
            Tally { tracker: before, published: 0, acknowledged: 0, rolled_back: 0 },
            occurrences.last(),
        ).tracker
    }
}

/// How many publishes the disconnects of a run discarded: what was
/// outstanding at each.
pub open spec fn discarded(d: DeliveryView, occurrences: Seq<Occurrence>) -> nat
    decreases occurrences.len(),
{
    if occurrences.len() == 0 {
        0
    } else {
        let before = tracker_after(d, occurrences.drop_last());
        discarded(d, occurrences.drop_last()) + if occurrences.last() is Disconnect
            && before.unacked + before.lost <= u32::MAX && before.generation != u64::MAX {
            before.unacked as nat
        } else {
            0nat
        }
    }
}

/// A flush reports exactly what disconnects discarded, whenever they fell:
/// what was lost and not yet reported when its window opened, and what was
/// outstanding at each disconnect since, however many flushes reported in
/// between.
pub proof fn law_a_flush_reports_every_discarded_publish(
    d: DeliveryView,
    occurrences: Seq<Occurrence>,
)
    ensures
        ({
            let after = tracker_after(d, occurrences);
            &&& after.reported + after.lost == d.reported + d.lost + discarded(d, occurrences)
            &&& d.reported <= after.reported
            &&& d.lost + discarded(d, occurrences) <= u32::MAX ==> loss_since(after, d.reported)
                == d.lost + discarded(d, occurrences)
            &&& d.lost + discarded(d, occurrences) > 0 ==> loss_since(after, d.reported) > 0
        }),
    decreases occurrences.len(),
{
    if occurrences.len() > 0 {
        law_a_flush_reports_every_discarded_publish(d, occurrences.drop_last());
    }
}

/// Publishes in a row.
pub open spec fn published_in_a_row(times: nat) -> Seq<Occurrence> {
    Seq::new(times, |i: int| Occurrence::Publish)
}

/// A disconnect that finds `times` publishes outstanding and none lost is
/// reported as that many, by a flush that opened before it and by one that
/// opens after it.
pub proof fn law_publishes_then_a_disconnect_are_all_lost(d: DeliveryView, times: nat)
    requires
        d.lost + d.unacked + times <= u32::MAX,
        d.generation < u64::MAX,
    ensures
        ({
            let published = tracker_after(d, published_in_a_row(times));
            let dropped = after_disconnect(published);
            &&& published.unacked == d.unacked + times
            &&& published.lost == d.lost
            &&& published.reported == d.reported
            &&& published.generation == d.generation
            &&& loss_since(dropped, d.reported) == d.lost + d.unacked + times
            &&& loss_since(dropped, dropped.reported) == d.lost + d.unacked + times
        }),
    decreases times,
{
    if times > 0 {
        let fewer = (times - 1) as nat;
        law_publishes_then_a_disconnect_are_all_lost(d, fewer);
        assert(published_in_a_row(times).drop_last() =~= published_in_a_row(fewer));
    }
}

} // verus!
