//! What the delivery tracker counts and reports.

use std::time::Duration;

use sparkplug_mqtt::{DeliveryTracker, FlushWindow, SparkplugError};

/// Flush a tracker that does not change meanwhile.
fn flush(tracker: &mut DeliveryTracker, timeout: Duration) -> Result<(), SparkplugError> {
    let window = tracker.open_flush();
    close(tracker, window, timeout)
}

/// Close a flush whose window was opened before.
fn close(
    tracker: &mut DeliveryTracker,
    window: FlushWindow,
    timeout: Duration,
) -> Result<(), SparkplugError> {
    let drained = tracker.is_drained();
    assert!(tracker.can_report(&window));
    tracker.flush(window, drained, timeout)
}

#[test]
fn a_publish_is_unacked_until_the_broker_answers() {
    let mut tracker = DeliveryTracker::new();
    let _ticket = tracker.record_publish();
    let _ticket = tracker.record_publish();
    assert_eq!(tracker.unacked(), 2);

    tracker.record_ack();
    assert_eq!(tracker.unacked(), 1);
}

#[test]
fn an_ack_with_nothing_outstanding_does_not_underflow() {
    let mut tracker = DeliveryTracker::new();
    tracker.record_ack();
    assert_eq!(tracker.unacked(), 0);
}

#[test]
fn a_disconnect_with_nothing_outstanding_loses_nothing() {
    let mut tracker = DeliveryTracker::new();
    tracker.record_disconnect();
    assert_eq!(tracker.unacked(), 0);
    flush(&mut tracker, Duration::from_millis(50)).expect("nothing was lost");
}

#[test]
fn flush_succeeds_once_every_publish_is_acked() {
    let mut tracker = DeliveryTracker::default();
    let _ticket = tracker.record_publish();
    tracker.record_ack();
    flush(&mut tracker, Duration::from_millis(50))
        .expect("a fully acked client should flush clean");
}

#[test]
fn flush_reports_publishes_lost_to_a_disconnect() {
    let mut tracker = DeliveryTracker::new();
    let _ticket = tracker.record_publish();
    let _ticket = tracker.record_publish();
    tracker.record_disconnect();

    let err = flush(&mut tracker, Duration::from_millis(50))
        .expect_err("a disconnect with outstanding publishes must fail the flush");
    assert!(matches!(err, SparkplugError::PublishLost { count: 2 }));
}

#[test]
fn flush_clears_the_loss_so_the_next_flush_is_clean() {
    let mut tracker = DeliveryTracker::new();
    let _ticket = tracker.record_publish();
    tracker.record_disconnect();
    let _ = flush(&mut tracker, Duration::from_millis(50));

    flush(&mut tracker, Duration::from_millis(50))
        .expect("an old loss must not poison later flushes");
}

#[test]
fn a_refused_publish_rolls_the_count_back() {
    let mut tracker = DeliveryTracker::new();
    let ticket = tracker.record_publish();
    tracker.record_publish_failed(ticket);
    assert_eq!(
        tracker.unacked(),
        0,
        "a message the client refused must not hold a flush open"
    );
}

#[test]
fn a_dropped_guard_releases_the_count_and_a_kept_one_does_not() {
    let mut tracker = DeliveryTracker::new();
    let in_flight = tracker.publish_in_flight();
    assert_eq!(tracker.unacked(), 1);
    tracker.end_publish(in_flight, false);
    assert_eq!(
        tracker.unacked(),
        0,
        "a cancelled publish must not hold a flush open"
    );

    let in_flight = tracker.publish_in_flight();
    tracker.end_publish(in_flight, true);
    assert_eq!(
        tracker.unacked(),
        1,
        "a publish the client took stays outstanding until the broker answers"
    );
}

#[test]
fn a_refusal_after_a_disconnect_rolls_back_nothing() {
    let mut tracker = DeliveryTracker::new();
    let ticket = tracker.record_publish();
    tracker.record_disconnect();
    let _ticket = tracker.record_publish();
    tracker.record_publish_failed(ticket);
    assert_eq!(
        tracker.unacked(),
        1,
        "the disconnect already cleared that count, so the rollback must \
         leave the publish that came after it outstanding"
    );
}

#[test]
fn a_refusal_after_a_disconnect_still_reports_the_loss() {
    let mut tracker = DeliveryTracker::new();
    let ticket = tracker.record_publish();
    tracker.record_disconnect();
    tracker.record_publish_failed(ticket);

    let err = flush(&mut tracker, Duration::from_millis(50))
        .expect_err("the disconnect must still report what it discarded");
    assert!(matches!(err, SparkplugError::PublishLost { count: 1 }));
}

#[test]
fn two_overlapping_flushes_both_learn_about_the_same_loss() {
    let mut tracker = DeliveryTracker::new();
    let _ticket = tracker.record_publish();

    // Both flushes open their window before the disconnect lands.
    let windows = [tracker.open_flush(), tracker.open_flush()];
    tracker.record_disconnect();

    for window in windows {
        let err = close(&mut tracker, window, Duration::from_secs(1))
            .expect_err("every flush that overlaps the disconnect must report the loss");
        assert!(matches!(err, SparkplugError::PublishLost { count: 1 }));
    }
}

#[test]
fn a_flush_that_starts_after_the_report_stays_clean() {
    let mut tracker = DeliveryTracker::new();
    let _ticket = tracker.record_publish();
    tracker.record_disconnect();
    let _ = flush(&mut tracker, Duration::from_millis(50));

    flush(&mut tracker, Duration::from_millis(50))
        .expect("a loss reported before this flush opened is not its loss");
}

#[test]
fn flush_times_out_while_the_broker_stays_silent() {
    let mut tracker = DeliveryTracker::new();
    let _ticket = tracker.record_publish();

    let err = flush(&mut tracker, Duration::from_millis(20))
        .expect_err("an unanswered publish must time out");
    assert!(matches!(
        err,
        SparkplugError::FlushTimeout { unacked: 1, .. }
    ));
    assert!(
        matches!(err, SparkplugError::FlushTimeout { after, .. } if after == Duration::from_millis(20))
    );
}

#[test]
fn a_flush_that_times_out_keeps_the_loss_for_the_next_one() {
    let mut tracker = DeliveryTracker::new();
    let _ticket = tracker.record_publish();
    tracker.record_disconnect();
    let _ticket = tracker.record_publish();

    let err = flush(&mut tracker, Duration::from_millis(20)).expect_err("one is outstanding");
    assert!(matches!(
        err,
        SparkplugError::FlushTimeout { unacked: 1, .. }
    ));

    tracker.record_ack();
    let err = flush(&mut tracker, Duration::from_millis(20)).expect_err("one was lost");
    assert!(matches!(err, SparkplugError::PublishLost { count: 1 }));
}

#[test]
fn a_window_that_saw_two_disconnects_reports_both() {
    let mut tracker = DeliveryTracker::new();
    let window = tracker.open_flush();
    let _ticket = tracker.record_publish();
    tracker.record_disconnect();
    let _ = flush(&mut tracker, Duration::from_millis(20));
    let _ticket = tracker.record_publish();
    let _ticket = tracker.record_publish();
    tracker.record_disconnect();

    let err = close(&mut tracker, window, Duration::from_millis(20)).expect_err("three were lost");
    assert!(matches!(err, SparkplugError::PublishLost { count: 3 }));
}

#[test]
fn a_fresh_tracker_has_room_for_everything() {
    let tracker = DeliveryTracker::new();
    assert!(tracker.has_room());
    assert!(tracker.can_disconnect());
    assert!(tracker.can_report(&tracker.open_flush()));
}

#[test]
fn a_clean_flush_confirms_every_publish_that_left() {
    let mut tracker = DeliveryTracker::new();

    // Two are lost and reported.
    let _ticket = tracker.record_publish();
    let _ticket = tracker.record_publish();
    tracker.record_disconnect();
    assert!(flush(&mut tracker, Duration::from_millis(20)).is_err());

    // One never leaves, and two are acknowledged inside the window.
    let window = tracker.open_flush();
    let _ticket = tracker.record_publish();
    let refused = tracker.record_publish();
    let _ticket = tracker.record_publish();
    tracker.record_ack();
    tracker.record_publish_failed(refused);
    assert!(
        matches!(
            tracker.flush(window, false, Duration::from_millis(20)),
            Err(SparkplugError::FlushTimeout { unacked: 1, .. })
        ),
        "one is still outstanding"
    );
    tracker.record_ack();
    close(&mut tracker, window, Duration::from_millis(20)).expect("everything was acknowledged");
}
