//! What the event loop does with each event.

use std::time::Duration;

use sparkplug_mqtt::sparkplug::eventloop::{apply_event, apply_health, Report, Step};
use sparkplug_mqtt::{DeliveryTracker, Health, LoopEvent, LoopState, SparkplugError};

/// A loop over a script, and what it has signalled so far.
struct Harness {
    state: LoopState,
    delivery: DeliveryTracker,
    health: Health,
    ready: u32,
    steps: Vec<Step>,
}

impl Harness {
    fn new(delivery: DeliveryTracker) -> Self {
        Self {
            state: LoopState::new(),
            delivery,
            health: Health::Disconnected,
            ready: 0,
            steps: Vec::new(),
        }
    }

    fn run(mut self, events: &[LoopEvent]) -> Self {
        for event in events {
            let step = self.state.step(&mut self.delivery, *event);
            if let Some(health) = step.health {
                self.health = health;
            }
            self.ready += u32::from(step.ready);
            self.steps.push(step);
        }
        self
    }

    fn flush(&mut self) -> Result<(), SparkplugError> {
        let window = self.delivery.open_flush();
        let drained = self.delivery.is_drained();
        self.delivery.flush(window, drained, Duration::from_secs(1))
    }
}

fn one_outstanding() -> DeliveryTracker {
    let mut delivery = DeliveryTracker::new();
    let _ticket = delivery.record_publish();
    delivery
}

#[test]
fn the_first_connack_signals_that_connect_may_return() {
    let h = Harness::new(DeliveryTracker::new()).run(&[LoopEvent::ConnAck]);
    assert_eq!(h.ready, 1, "a ConnAck must release the waiting connect");
}

#[test]
fn only_the_first_connack_signals() {
    let h = Harness::new(DeliveryTracker::new()).run(&[
        LoopEvent::ConnAck,
        LoopEvent::PollError,
        LoopEvent::ConnAck,
        LoopEvent::ConnAck,
    ]);
    assert_eq!(h.ready, 1);
    assert!(h.steps[0].ready);
}

#[test]
fn a_poll_error_before_the_first_connack_still_releases_connect() {
    let h =
        Harness::new(DeliveryTracker::new()).run(&[LoopEvent::PollError, LoopEvent::ConnAck]);
    assert_eq!(
        h.ready, 1,
        "an error before the ConnAck must not strand connect"
    );
}

#[test]
fn the_loop_keeps_polling_after_an_error() {
    let h =
        Harness::new(DeliveryTracker::new()).run(&[LoopEvent::PollError, LoopEvent::ConnAck]);
    assert_eq!(
        h.health,
        Health::Connected,
        "the loop must reconnect rather than stop at the error"
    );
}

#[test]
fn a_puback_the_loop_polls_clears_the_publish() {
    let mut h = Harness::new(one_outstanding()).run(&[LoopEvent::PubAck]);
    h.flush()
        .expect("the loop must apply the PubAck so the flush drains");
}

#[test]
fn an_error_the_loop_polls_reports_the_publish_as_lost() {
    let mut h = Harness::new(one_outstanding()).run(&[LoopEvent::PollError]);
    assert_eq!(
        h.health,
        Health::Disconnected,
        "the loop must report the link is down"
    );
    let err = h
        .flush()
        .expect_err("a disconnect discards what it had queued");
    assert!(matches!(err, SparkplugError::PublishLost { count: 1 }));
}

#[test]
fn an_unrelated_event_leaves_the_loop_running() {
    let h = Harness::new(one_outstanding()).run(&[LoopEvent::Other, LoopEvent::ConnAck]);
    assert_eq!(h.ready, 1, "a PingResp must not stop the loop");
    assert_eq!(
        h.delivery.unacked(),
        1,
        "a PingResp must not touch the outstanding count"
    );
}

#[test]
fn five_errors_in_a_row_are_severe() {
    let h = Harness::new(DeliveryTracker::new()).run(&[LoopEvent::PollError; 6]);
    for (i, step) in h.steps.iter().enumerate() {
        let errors = i as u32 + 1;
        assert_eq!(
            step.report,
            Report::Failing {
                errors,
                severe: errors >= 5
            }
        );
        assert_eq!(step.back_off_secs, 1);
    }
    assert_eq!(h.state.consecutive_errors(), 6);
}

#[test]
fn a_good_event_starts_the_errors_again_and_a_disconnect_does_not() {
    let h = Harness::new(DeliveryTracker::new()).run(&[
        LoopEvent::PollError,
        LoopEvent::PollError,
        LoopEvent::IncomingDisconnect,
    ]);
    assert_eq!(h.state.consecutive_errors(), 2);
    let h = h.run(&[LoopEvent::PubAck]);
    assert_eq!(h.state.consecutive_errors(), 0);
    let h = h.run(&[LoopEvent::PollError, LoopEvent::ConnAck]);
    assert_eq!(h.state.consecutive_errors(), 0);
}

#[test]
fn only_an_error_backs_off() {
    for event in [
        LoopEvent::ConnAck,
        LoopEvent::PubAck,
        LoopEvent::IncomingDisconnect,
        LoopEvent::OutgoingDisconnect,
        LoopEvent::Other,
    ] {
        let h = Harness::new(DeliveryTracker::default()).run(&[event]);
        assert_eq!(h.steps[0].back_off_secs, 0, "{event:?}");
    }
}

#[test]
fn the_loop_reports_what_happened() {
    let h = Harness::new(DeliveryTracker::new()).run(&[
        LoopEvent::ConnAck,
        LoopEvent::Other,
        LoopEvent::IncomingDisconnect,
        LoopEvent::OutgoingDisconnect,
    ]);
    let reports: Vec<Report> = h.steps.iter().map(|step| step.report).collect();
    assert_eq!(
        reports,
        vec![
            Report::Connected,
            Report::Quiet,
            Report::Disconnected,
            Report::Quiet
        ]
    );
}

#[test]
fn a_puback_clears_one_publish() {
    let mut tracker = one_outstanding();
    apply_event(&mut tracker, LoopEvent::PubAck);
    assert_eq!(tracker.unacked(), 0);
}

#[test]
fn a_poll_error_loses_everything_outstanding() {
    let mut tracker = one_outstanding();
    apply_event(&mut tracker, LoopEvent::PollError);
    assert_eq!(
        tracker.unacked(),
        0,
        "a disconnect clears the outstanding count"
    );
}

#[test]
fn an_incoming_disconnect_loses_everything_outstanding() {
    let mut tracker = one_outstanding();
    apply_event(&mut tracker, LoopEvent::IncomingDisconnect);
    assert_eq!(tracker.unacked(), 0);
}

#[test]
fn an_unrelated_event_changes_nothing() {
    let mut tracker = one_outstanding();
    apply_event(&mut tracker, LoopEvent::Other);
    assert_eq!(tracker.unacked(), 1);
}

#[test]
fn connack_reports_connected_and_errors_report_disconnected() {
    assert_eq!(apply_health(LoopEvent::ConnAck), Some(Health::Connected));
    assert_eq!(
        apply_health(LoopEvent::PollError),
        Some(Health::Disconnected)
    );
}

#[test]
fn a_written_disconnect_reports_disconnected() {
    assert_eq!(
        apply_health(LoopEvent::OutgoingDisconnect),
        Some(Health::Disconnected)
    );
}

#[test]
fn an_unrelated_event_leaves_health_alone() {
    assert_eq!(apply_health(LoopEvent::Other), None);
    let h = Harness::new(DeliveryTracker::new()).run(&[LoopEvent::ConnAck, LoopEvent::Other]);
    assert_eq!(h.health, Health::Connected);
}
