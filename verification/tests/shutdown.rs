//! How a connect and a shutdown end.

use std::time::Duration;

use sparkplug_mqtt::sparkplug::client::connect_outcome;
use sparkplug_mqtt::sparkplug::client::shutdown::{
    confirms_disconnect, disconnect_outcome, shutdown_outcome, DisconnectRequest, Disconnected,
};
use sparkplug_mqtt::{Health, Identity, Namespace, SparkplugClient, SparkplugError};

fn refused() -> rumqttc::ClientError {
    rumqttc::ClientError::Request(rumqttc::Request::Disconnect(rumqttc::Disconnect))
}

#[test]
fn an_unwritten_disconnect_is_not_confirmed() {
    assert!(
        !confirms_disconnect(Some(Health::Connected)),
        "a silent event loop must not count as a written DISCONNECT"
    );
    assert!(
        !confirms_disconnect(None),
        "a signal whose source is gone confirms nothing"
    );
}

#[test]
fn a_written_disconnect_is_confirmed() {
    assert!(confirms_disconnect(Some(Health::Disconnected)));
}

#[test]
fn shutdown_reports_the_lost_publishes_before_the_disconnect() {
    let outcome = shutdown_outcome(
        Err(SparkplugError::PublishLost { count: 3 }),
        Disconnected::Unconfirmed,
        Duration::from_secs(5),
    );
    assert!(matches!(
        outcome,
        Err(SparkplugError::PublishLost { count: 3 })
    ));
}

#[test]
fn shutdown_reports_an_unconfirmed_disconnect() {
    let outcome = shutdown_outcome(Ok(()), Disconnected::Unconfirmed, Duration::from_secs(5));
    assert!(matches!(
        outcome,
        Err(SparkplugError::ShutdownTimeout { after }) if after == Duration::from_secs(5)
    ));
}

#[test]
fn shutdown_reports_the_refused_disconnect_rather_than_a_timeout() {
    let refused = Disconnected::Refused(refused());
    let outcome = shutdown_outcome(Ok(()), refused, Duration::from_secs(5));
    assert!(
        matches!(outcome, Err(SparkplugError::Disconnect(_))),
        "a refused request must name its own cause, not the deadline"
    );
}

#[test]
fn a_refused_disconnect_does_not_wait_for_the_event_loop() {
    let outcome = disconnect_outcome(
        DisconnectRequest::Refused(refused()),
        Some(Health::Connected),
    );
    assert!(matches!(outcome, Disconnected::Refused(_)));
}

#[test]
fn a_request_that_misses_the_deadline_is_unconfirmed() {
    for seen in [None, Some(Health::Connected), Some(Health::Disconnected)] {
        let outcome = disconnect_outcome(DisconnectRequest::Late, seen);
        assert!(matches!(outcome, Disconnected::Unconfirmed));
    }
}

#[test]
fn a_taken_request_is_written_once_the_link_is_down() {
    assert!(matches!(
        disconnect_outcome(DisconnectRequest::Taken, Some(Health::Disconnected)),
        Disconnected::Written
    ));
    assert!(matches!(
        disconnect_outcome(DisconnectRequest::Taken, Some(Health::Connected)),
        Disconnected::Unconfirmed
    ));
}

#[test]
fn shutdown_reports_success_once_the_disconnect_is_written() {
    assert!(shutdown_outcome(Ok(()), Disconnected::Written, Duration::from_secs(5)).is_ok());
}

#[test]
fn a_client_shuts_down_as_its_flush_and_its_disconnect_say() {
    let client = || SparkplugClient::new(Namespace::sparkplug_b(), Identity::Publisher);
    assert!(client()
        .shutdown(
            Ok(()),
            DisconnectRequest::Taken,
            Some(Health::Disconnected),
            Duration::from_secs(1)
        )
        .is_ok());
    assert!(matches!(
        client().shutdown(
            Ok(()),
            DisconnectRequest::Refused(refused()),
            Some(Health::Disconnected),
            Duration::from_secs(1)
        ),
        Err(SparkplugError::Disconnect(_))
    ));
    assert!(matches!(
        client().shutdown(
            Err(SparkplugError::PublishLost { count: 1 }),
            DisconnectRequest::Refused(refused()),
            None,
            Duration::from_secs(1)
        ),
        Err(SparkplugError::PublishLost { count: 1 })
    ));
}

#[test]
fn a_silent_broker_times_the_connect_out() {
    assert!(connect_outcome(true, Duration::from_secs(5)).is_ok());
    assert!(matches!(
        connect_outcome(false, Duration::from_secs(5)),
        Err(SparkplugError::ConnectionTimeout(after)) if after == Duration::from_secs(5)
    ));
}
