//! What a shutdown learns from its DISCONNECT.

use crate::error::SparkplugError;
use crate::sparkplug::eventloop::Health;
use std::time::Duration;
use vstd::prelude::*;

verus! {

/// What became of the request to disconnect.
#[derive(Debug)]
pub enum DisconnectRequest {
    /// The deadline arrived before the MQTT client took the request.
    Late,
    /// The MQTT client refused the request.
    Refused(rumqttc::ClientError),
    /// The MQTT client took the request.
    Taken,
}

/// What a shutdown learns from its DISCONNECT attempt.
#[derive(Debug)]
pub enum Disconnected {
    /// The event loop wrote the DISCONNECT packet.
    Written,
    /// The deadline arrived before the event loop confirmed the packet.
    Unconfirmed,
    /// The MQTT client refused the request, so no packet can go out.
    Refused(rumqttc::ClientError),
}

/// What a request and the health that was seen last show.
pub open spec fn disconnected_of(
    requested: DisconnectRequest,
    last_seen: Option<Health>,
) -> Disconnected {
    match requested {
        DisconnectRequest::Late => Disconnected::Unconfirmed,
        DisconnectRequest::Refused(error) => Disconnected::Refused(error),
        DisconnectRequest::Taken => if last_seen == Some(Health::Disconnected) {
            Disconnected::Written
        } else {
            Disconnected::Unconfirmed
        },
    }
}

/// What a shutdown reports.
pub open spec fn outcome_of(
    flushed: Result<(), SparkplugError>,
    disconnected: Disconnected,
    timeout: Duration,
) -> Result<(), SparkplugError> {
    match (flushed, disconnected) {
        (Err(error), _) => Err(error),
        (Ok(()), Disconnected::Written) => Ok(()),
        (Ok(()), Disconnected::Refused(error)) => Err(SparkplugError::Disconnect(error)),
        (Ok(()), Disconnected::Unconfirmed) => Err(
            SparkplugError::ShutdownTimeout { after: timeout },
        ),
    }
}

/// Whether the health that was seen last confirms the DISCONNECT packet.
///
/// The event loop shows the link as down once it writes the packet. A link
/// that is already down confirms at once, because a dead link needs no
/// DISCONNECT. `None` stands for a signal whose source is gone, which
/// confirms nothing.
#[must_use]
pub fn confirms_disconnect(last_seen: Option<Health>) -> (confirms: bool)
    ensures
        confirms == (last_seen == Some(Health::Disconnected)),
{
    match last_seen {
        Some(health) => matches!(health, Health::Disconnected),
        None => false,
    }
}

/// Read what became of the request, and then what confirmed it.
#[must_use]
pub fn disconnect_outcome(requested: DisconnectRequest, last_seen: Option<Health>) -> (disconnected:
    Disconnected)
    ensures
        disconnected == disconnected_of(requested, last_seen),
{
    match requested {
        DisconnectRequest::Late => Disconnected::Unconfirmed,
        DisconnectRequest::Refused(error) => Disconnected::Refused(error),
        DisconnectRequest::Taken => if confirms_disconnect(last_seen) {
            Disconnected::Written
        } else {
            Disconnected::Unconfirmed
        },
    }
}

/// Choose what a shutdown reports.
///
/// A lost publish outranks a failed DISCONNECT, because the caller must
/// publish those messages again. A refusal outranks the deadline, because it
/// names the cause instead of the symptom.
pub fn shutdown_outcome(
    flushed: Result<(), SparkplugError>,
    disconnected: Disconnected,
    timeout: Duration,
) -> (outcome: Result<(), SparkplugError>)
    ensures
        outcome == outcome_of(flushed, disconnected, timeout),
{
    match flushed {
        Err(error) => Err(error),
        Ok(()) => match disconnected {
            Disconnected::Written => Ok(()),
            Disconnected::Refused(error) => Err(SparkplugError::Disconnect(error)),
            Disconnected::Unconfirmed => Err(SparkplugError::ShutdownTimeout { after: timeout }),
        },
    }
}

/// A shutdown succeeds when, and only when, the flush succeeded and the
/// DISCONNECT packet was confirmed.
pub proof fn law_a_shutdown_succeeds_only_when_confirmed(
    flushed: Result<(), SparkplugError>,
    requested: DisconnectRequest,
    last_seen: Option<Health>,
    timeout: Duration,
)
    ensures
        outcome_of(flushed, disconnected_of(requested, last_seen), timeout) is Ok <==> {
            &&& flushed is Ok
            &&& requested is Taken
            &&& last_seen == Some(Health::Disconnected)
        },
{
}

/// A flush that failed is reported whatever became of the DISCONNECT.
pub proof fn law_a_failed_flush_outranks_the_disconnect(
    error: SparkplugError,
    disconnected: Disconnected,
    timeout: Duration,
)
    ensures
        outcome_of(Err(error), disconnected, timeout) == Err::<(), _>(error),
{
}

/// What a DISCONNECT attempt shows: a refusal is kept as it is, and the
/// packet is written only when the request was taken and the link was last
/// seen down. Nothing else confirms it.
pub proof fn law_only_a_dead_link_confirms_the_packet(
    error: rumqttc::ClientError,
    last_seen: Option<Health>,
)
    ensures
        disconnected_of(DisconnectRequest::Refused(error), last_seen) == Disconnected::Refused(
            error,
        ),
        disconnected_of(DisconnectRequest::Late, last_seen) == Disconnected::Unconfirmed,
        disconnected_of(DisconnectRequest::Taken, Some(Health::Disconnected))
            == Disconnected::Written,
        last_seen != Some(Health::Disconnected) ==> disconnected_of(
            DisconnectRequest::Taken,
            last_seen,
        ) == Disconnected::Unconfirmed,
{
}

/// What a shutdown reports once its flush succeeded: the refusal when there
/// was one, and otherwise the deadline that ran out when nothing confirmed
/// the packet.
pub proof fn law_a_shutdown_names_the_cause(
    error: rumqttc::ClientError,
    last_seen: Option<Health>,
    timeout: Duration,
)
    ensures
        outcome_of(
            Ok(()),
            disconnected_of(DisconnectRequest::Refused(error), last_seen),
            timeout,
        ) == Err::<(), _>(SparkplugError::Disconnect(error)),
        outcome_of(
            Ok(()),
            disconnected_of(DisconnectRequest::Late, last_seen),
            timeout,
        ) == Err::<(), _>(SparkplugError::ShutdownTimeout { after: timeout }),
        last_seen != Some(Health::Disconnected) ==> outcome_of(
            Ok(()),
            disconnected_of(DisconnectRequest::Taken, last_seen),
            timeout,
        ) == Err::<(), _>(SparkplugError::ShutdownTimeout { after: timeout }),
        outcome_of(Ok(()), Disconnected::Written, timeout) == Ok::<(), SparkplugError>(()),
{
}

} // verus!
