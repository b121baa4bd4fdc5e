//! MQTT connection setup.
//!
//! This module owns the options a Sparkplug connection needs and hands back
//! the two halves of an MQTT client. Call [`mqtt_parts`] directly only when
//! you run your own event loop.

use crate::error::SparkplugError;
use crate::payload;
use crate::text;
use rumqttc::{AsyncClient, EventLoop, MqttOptions, Transport};
use std::time::Duration;
use vstd::prelude::*;

verus! {

// ---------------------------------------------------------------------------
// Outside types
// ---------------------------------------------------------------------------

/// Declares `rumqttc::Transport`, the way a connection reaches its broker.
#[verifier::external_type_specification]
#[verifier::external_body]
pub struct ExTransport(Transport);

/// Declares `rumqttc::MqttOptions`, the options of one connection.
#[verifier::external_type_specification]
#[verifier::external_body]
pub struct ExMqttOptions(MqttOptions);

/// Declares `rumqttc::AsyncClient`, the half of a connection that publishes.
#[verifier::external_type_specification]
#[verifier::external_body]
pub struct ExAsyncClient(AsyncClient);

/// Declares `rumqttc::EventLoop`, the half of a connection that is polled.
#[verifier::external_type_specification]
#[verifier::external_body]
pub struct ExEventLoop(EventLoop);

/// `Clone::clone` of `rumqttc::Transport` gives the same transport again.
pub assume_specification[ <Transport as Clone>::clone ](transport: &Transport) -> (copy: Transport)
    ensures
        copy == *transport,
;

// ---------------------------------------------------------------------------
// MqttConfig
// ---------------------------------------------------------------------------

/// What one MQTT connection needs.
///
/// This names the connection alone. It carries no Sparkplug identity: a
/// client takes the edge node it speaks for at connect, and a publisher
/// client takes the edge node of each publish per call.
pub struct MqttConfig {
    pub broker_url: String,
    pub broker_port: u16,
    pub transport: Transport,
    pub username: String,
    pub password: String,
    /// The MQTT-level identifier of this connection.
    ///
    /// A broker treats two connections that share a client id as a takeover,
    /// so give each connection of one process its own value. Leave this
    /// `None` to take a generated one: see [`generate_client_id`].
    pub client_id: Option<String>,
    pub version: String,
}

/// What a [`MqttConfig`] holds.
pub struct ConfigView {
    pub broker_url: Seq<char>,
    pub broker_port: u16,
    pub transport: Transport,
    pub username: Seq<char>,
    pub password: Seq<char>,
    pub client_id: Option<Seq<char>>,
    pub version: Seq<char>,
}

impl View for MqttConfig {
    type V = ConfigView;

    open spec fn view(&self) -> ConfigView {
        ConfigView {
            broker_url: self.broker_url@,
            broker_port: self.broker_port,
            transport: self.transport,
            username: self.username@,
            password: self.password@,
            client_id: payload::view_of(self.client_id),
            version: self.version@,
        }
    }
}

impl Clone for MqttConfig {
    fn clone(&self) -> (copy: Self)
        ensures
            copy@ == self@,
    {
        let client_id = match &self.client_id {
            Some(id) => Some(id.clone()),
            None => None,
        };
        MqttConfig {
            broker_url: self.broker_url.clone(),
            broker_port: self.broker_port,
            transport: self.transport.clone(),
            username: self.username.clone(),
            password: self.password.clone(),
            client_id,
            version: self.version.clone(),
        }
    }
}

/// How a client id that may be missing is shown.
pub open spec fn shown_client_id(client_id: Option<Seq<char>>) -> Seq<char> {
    match client_id {
        Some(id) => "Some("@ + text::debug_quoted(id) + ")"@,
        None => "None"@,
    }
}

/// A configuration as it is shown to a reader, with the password left out.
pub open spec fn shown_config(config: ConfigView) -> Seq<char> {
    "MqttConfig { broker_url: "@ + text::debug_quoted(config.broker_url) + ", broker_port: "@
        + text::decimal(config.broker_port as nat) + ", username: "@ + text::debug_quoted(
        config.username,
    ) + ", password: \"[REDACTED]\", client_id: "@ + shown_client_id(config.client_id)
        + ", version: "@ + text::debug_quoted(config.version) + ", .. }"@
}

impl MqttConfig {
    /// This configuration as it is shown to a reader, with the password left
    /// out.
    #[must_use]
    pub fn debug_text(&self) -> (shown: String)
        ensures
            shown@ == shown_config(self@),
    {
        let mut shown = "MqttConfig { broker_url: ".to_owned();
        shown.append(text::quote(self.broker_url.as_str()).as_str());
        shown.append(", broker_port: ");
        shown.append(text::decimal_text(self.broker_port as u64).as_str());
        shown.append(", username: ");
        shown.append(text::quote(self.username.as_str()).as_str());
        shown.append(", password: \"[REDACTED]\", client_id: ");
        let mut id = String::new();
        match &self.client_id {
            Some(client_id) => {
                id.append("Some(");
                id.append(text::quote(client_id.as_str()).as_str());
                id.append(")");
            },
            None => {
                id.append("None");
            },
        }
        assert(id@ =~= shown_client_id(self@.client_id));
        shown.append(id.as_str());
        shown.append(", version: ");
        shown.append(text::quote(self.version.as_str()).as_str());
        shown.append(", .. }");
        shown
    }
}

/// The shown text does not depend on the password, so it cannot give it
/// away.
pub proof fn law_the_shown_text_hides_the_password(config: ConfigView, password: Seq<char>)
    ensures
        shown_config(ConfigView { password, ..config }) == shown_config(config),
{
}

// ---------------------------------------------------------------------------
// Client id
// ---------------------------------------------------------------------------

/// A generated client id: the version, an underscore, and eight hexadecimal
/// digits.
pub open spec fn client_id_of(version: Seq<char>, suffix: u32) -> Seq<char> {
    version + "_"@ + text::hexadecimal(suffix as nat, 8)
}

/// Calls `rand::random` for a 32-bit number. The number is random, so
/// nothing is stated of it.
#[verifier::external_body]
fn random_suffix() -> u32 {
    rand::random::<u32>()
}

/// The client id that a suffix gives.
#[must_use]
pub fn client_id_with(version: &str, suffix: u32) -> (client_id: String)
    ensures
        client_id@ == client_id_of(version@, suffix),
{
    let mut client_id = version.to_owned();
    client_id.append("_");
    client_id.append(text::hexadecimal_text(suffix as u64, 8).as_str());
    client_id
}

/// Generate a client id in the format `{version}_{random 32-bit hex}`.
///
/// [`mqtt_options`] calls this when [`MqttConfig::client_id`] is `None`. A
/// broker treats two connections that share a client id as a takeover, and
/// it disconnects the earlier session, which the event loop then reconnects.
/// The suffix draws one of 2^32 values to keep the connections of one
/// process apart. `version` is the same string for every caller, so the
/// suffix carries all of the difference.
///
/// A client id names an MQTT connection only. It names no edge node.
#[must_use]
pub fn generate_client_id(version: &str) -> (client_id: String)
    ensures
        exists|suffix: u32| client_id@ == #[trigger] client_id_of(version@, suffix),
{
    client_id_with(version, random_suffix())
}

/// Two different suffixes give two different client ids.
pub proof fn law_the_suffix_carries_all_of_the_difference(version: Seq<char>, a: u32, b: u32)
    requires
        client_id_of(version, a) == client_id_of(version, b),
    ensures
        a == b,
{
    let left = text::hexadecimal(a as nat, 8);
    let right = text::hexadecimal(b as nat, 8);
    let n = (version + "_"@).len() as int;
    assert(left =~= client_id_of(version, a).skip(n));
    assert(right =~= client_id_of(version, b).skip(n));
    assert(vstd::arithmetic::power::pow(16, 8) > u32::MAX) by {
        reveal_with_fuel(vstd::arithmetic::power::pow, 9);
    }
    text::lemma_hexadecimal_injective(a as nat, b as nat, 8);
}

/// A generated client id is the version and nine characters more.
pub proof fn law_a_generated_client_id_has_eight_digits(version: Seq<char>, suffix: u32)
    ensures
        client_id_of(version, suffix).len() == version.len() + 9,
        client_id_of(version, suffix).take(version.len() as int) == version,
{
    reveal_strlit("_");
    text::lemma_hexadecimal_len(suffix as nat, 8);
    assert(client_id_of(version, suffix).take(version.len() as int) =~= version);
}

// ---------------------------------------------------------------------------
// Options
// ---------------------------------------------------------------------------

/// Every setting of a connection, as plain values.
pub struct MqttSettings {
    pub client_id: String,
    pub broker_url: String,
    pub broker_port: u16,
    pub username: String,
    pub password: String,
    pub keep_alive_secs: u64,
    pub clean_session: bool,
    pub max_incoming_packet_size: usize,
    pub max_outgoing_packet_size: usize,
    pub inflight: u16,
    pub manual_acks: bool,
    pub pending_throttle_ms: u64,
    pub transport: Transport,
}

/// What a [`MqttSettings`] holds.
pub struct SettingsView {
    pub client_id: Seq<char>,
    pub broker_url: Seq<char>,
    pub broker_port: u16,
    pub username: Seq<char>,
    pub password: Seq<char>,
    pub keep_alive_secs: u64,
    pub clean_session: bool,
    pub max_incoming_packet_size: usize,
    pub max_outgoing_packet_size: usize,
    pub inflight: u16,
    pub manual_acks: bool,
    pub pending_throttle_ms: u64,
    pub transport: Transport,
}

impl View for MqttSettings {
    type V = SettingsView;

    open spec fn view(&self) -> SettingsView {
        SettingsView {
            client_id: self.client_id@,
            broker_url: self.broker_url@,
            broker_port: self.broker_port,
            username: self.username@,
            password: self.password@,
            keep_alive_secs: self.keep_alive_secs,
            clean_session: self.clean_session,
            max_incoming_packet_size: self.max_incoming_packet_size,
            max_outgoing_packet_size: self.max_outgoing_packet_size,
            inflight: self.inflight,
            manual_acks: self.manual_acks,
            pending_throttle_ms: self.pending_throttle_ms,
            transport: self.transport,
        }
    }
}

/// How many requests the channel between the two halves of a connection
/// holds.
pub const REQUEST_CAPACITY: usize = 10;

/// The settings of a Sparkplug connection, where `suffix` ends a generated
/// client id.
///
/// The session is clean because Sparkplug requires it. That is why a
/// reconnect discards queued publishes, which is why a flush exists.
pub open spec fn settings_of(config: ConfigView, suffix: u32) -> SettingsView {
    SettingsView {
        client_id: match config.client_id {
            Some(id) => id,
            None => client_id_of(config.version, suffix),
        },
        broker_url: config.broker_url,
        broker_port: config.broker_port,
        username: config.username,
        password: config.password,
        keep_alive_secs: 15,
        clean_session: true,
        max_incoming_packet_size: 10_485_760,
        max_outgoing_packet_size: 10_485_760,
        inflight: 100,
        manual_acks: false,
        pending_throttle_ms: 100,
        transport: config.transport,
    }
}

/// What a `rumqttc::MqttOptions` holds, field by field.
pub struct OptionsView {
    pub client_id: Seq<char>,
    pub broker_url: Seq<char>,
    pub broker_port: u16,
    /// The username and the password, when there are any.
    pub login: Option<(Seq<char>, Seq<char>)>,
    pub keep_alive_secs: u64,
    pub clean_session: bool,
    pub max_incoming_packet_size: usize,
    pub max_outgoing_packet_size: usize,
    pub inflight: u16,
    pub manual_acks: bool,
    pub pending_throttle_ms: u64,
    pub transport: Transport,
}

/// The options that settings give.
pub open spec fn options_of(settings: SettingsView) -> OptionsView {
    OptionsView {
        client_id: settings.client_id,
        broker_url: settings.broker_url,
        broker_port: settings.broker_port,
        login: Some((settings.username, settings.password)),
        keep_alive_secs: settings.keep_alive_secs,
        clean_session: settings.clean_session,
        max_incoming_packet_size: settings.max_incoming_packet_size,
        max_outgoing_packet_size: settings.max_outgoing_packet_size,
        inflight: settings.inflight,
        manual_acks: settings.manual_acks,
        pending_throttle_ms: settings.pending_throttle_ms,
        transport: settings.transport,
    }
}

/// What the fields of a `rumqttc::MqttOptions` hold: the keep-alive time in
/// whole seconds, the throttle in whole milliseconds.
pub uninterp spec fn options_held(options: MqttOptions) -> OptionsView;

/// Calls `MqttOptions::new`, which stores the client id and the address of
/// the broker. Its defaults for the other fields are not stated.
#[verifier::external_body]
fn new_options(client_id: &str, broker_url: &str, broker_port: u16) -> (options: MqttOptions)
    ensures
        options_held(options).client_id == client_id@,
        options_held(options).broker_url == broker_url@,
        options_held(options).broker_port == broker_port,
{
    MqttOptions::new(client_id, broker_url, broker_port)
}

/// Calls `MqttOptions::set_credentials`, which stores the username and the
/// password and touches no other field.
#[verifier::external_body]
fn set_credentials(options: &mut MqttOptions, username: &str, password: &str)
    ensures
        options_held(*final(options)) == (OptionsView {
            login: Some((username@, password@)),
            ..options_held(*old(options))
        }),
{
    options.set_credentials(username, password);
}

/// Calls `MqttOptions::set_keep_alive`, which stores the time and touches no
/// other field. It panics on part of a second, which whole seconds never
/// are.
#[verifier::external_body]
fn set_keep_alive(options: &mut MqttOptions, secs: u64)
    ensures
        options_held(*final(options)) == (OptionsView {
            keep_alive_secs: secs,
            ..options_held(*old(options))
        }),
{
    options.set_keep_alive(Duration::from_secs(secs));
}

/// Calls `MqttOptions::set_clean_session`, which stores the flag and touches
/// no other field. It panics when a client with no client id asks for a
/// session that is kept.
#[verifier::external_body]
fn set_clean_session(options: &mut MqttOptions, clean_session: bool)
    requires
        clean_session,
    ensures
        options_held(*final(options)) == (OptionsView {
            clean_session,
            ..options_held(*old(options))
        }),
{
    options.set_clean_session(clean_session);
}

/// Calls `MqttOptions::set_max_packet_size`, which stores both sizes and
/// touches no other field.
#[verifier::external_body]
fn set_max_packet_size(options: &mut MqttOptions, incoming: usize, outgoing: usize)
    ensures
        options_held(*final(options)) == (OptionsView {
            max_incoming_packet_size: incoming,
            max_outgoing_packet_size: outgoing,
            ..options_held(*old(options))
        }),
{
    options.set_max_packet_size(incoming, outgoing);
}

/// Calls `MqttOptions::set_inflight`, which stores the number and touches no
/// other field. It panics on zero.
#[verifier::external_body]
fn set_inflight(options: &mut MqttOptions, inflight: u16)
    requires
        inflight != 0,
    ensures
        options_held(*final(options)) == (OptionsView {
            inflight,
            ..options_held(*old(options))
        }),
{
    options.set_inflight(inflight);
}

/// Calls `MqttOptions::set_manual_acks`, which stores the flag and touches no
/// other field.
#[verifier::external_body]
fn set_manual_acks(options: &mut MqttOptions, manual_acks: bool)
    ensures
        options_held(*final(options)) == (OptionsView {
            manual_acks,
            ..options_held(*old(options))
        }),
{
    options.set_manual_acks(manual_acks);
}

/// Calls `MqttOptions::set_pending_throttle`, which stores the delay and
/// touches no other field.
#[verifier::external_body]
fn set_pending_throttle(options: &mut MqttOptions, millis: u64)
    ensures
        options_held(*final(options)) == (OptionsView {
            pending_throttle_ms: millis,
            ..options_held(*old(options))
        }),
{
    options.set_pending_throttle(Duration::from_millis(millis));
}

/// Calls `MqttOptions::set_transport`, which stores the transport and touches
/// no other field.
#[verifier::external_body]
fn set_transport(options: &mut MqttOptions, transport: Transport)
    ensures
        options_held(*final(options)) == (OptionsView {
            transport,
            ..options_held(*old(options))
        }),
{
    options.set_transport(transport);
}

/// The options of the connection that a `rumqttc::EventLoop` polls, which is
/// what its field `mqtt_options` holds.
pub uninterp spec fn polled_options(event_loop: EventLoop) -> MqttOptions;

/// Whether what is published through a `rumqttc::AsyncClient` reaches a
/// `rumqttc::EventLoop`: the client holds the sender of the channel that the
/// loop reads.
pub uninterp spec fn feeds(client: AsyncClient, event_loop: EventLoop) -> bool;

/// How many requests the channel that a `rumqttc::EventLoop` reads can hold.
pub uninterp spec fn request_capacity(event_loop: EventLoop) -> usize;

/// Calls `AsyncClient::new`, which makes the two halves of one connection and
/// opens no socket. The event loop gets the options and a channel of the
/// given capacity, and the client gets the sender of that channel.
#[verifier::external_body]
fn new_parts(options: MqttOptions, capacity: usize) -> (parts: (AsyncClient, EventLoop))
    ensures
        polled_options(parts.1) == options,
        feeds(parts.0, parts.1),
        request_capacity(parts.1) == capacity,
{
    AsyncClient::new(options, capacity)
}

/// The settings a Sparkplug connection needs, where `suffix` ends the client
/// id if the configuration names none.
#[must_use]
pub fn settings_with(config: &MqttConfig, suffix: u32) -> (settings: MqttSettings)
    ensures
        settings@ == settings_of(config@, suffix),
        settings.broker_url@ == config.broker_url@,
        settings.broker_port == config.broker_port,
        settings.username@ == config.username@,
        settings.password@ == config.password@,
        settings.transport == config.transport,
        config.client_id matches Some(id) ==> settings.client_id@ == id@,
{
    let client_id = match &config.client_id {
        Some(id) => id.clone(),
        None => client_id_with(config.version.as_str(), suffix),
    };
    MqttSettings {
        client_id,
        broker_url: config.broker_url.clone(),
        broker_port: config.broker_port,
        username: config.username.clone(),
        password: config.password.clone(),
        keep_alive_secs: 15,
        clean_session: true,
        max_incoming_packet_size: 10_485_760,
        max_outgoing_packet_size: 10_485_760,
        inflight: 100,
        manual_acks: false,
        pending_throttle_ms: 100,
        transport: config.transport.clone(),
    }
}

/// The settings a Sparkplug connection needs.
#[must_use]
pub fn mqtt_settings(config: &MqttConfig) -> (settings: MqttSettings)
    ensures
        exists|suffix: u32| settings@ == #[trigger] settings_of(config@, suffix),
        settings.broker_url@ == config.broker_url@,
        settings.broker_port == config.broker_port,
        settings.username@ == config.username@,
        settings.password@ == config.password@,
        settings.transport == config.transport,
        config.client_id matches Some(id) ==> settings.client_id@ == id@,
{
    settings_with(config, random_suffix())
}

/// Build the MQTT options a Sparkplug connection needs.
///
/// They hold the settings that [`mqtt_settings`] gives. The session is clean
/// because Sparkplug requires it.
#[must_use]
pub fn mqtt_options(config: &MqttConfig) -> (options: MqttOptions)
    ensures
        exists|suffix: u32|
            options_held(options) == options_of(#[trigger] settings_of(config@, suffix)),
        options_held(options).broker_url == config.broker_url@,
        options_held(options).broker_port == config.broker_port,
        options_held(options).login == Some((config.username@, config.password@)),
        options_held(options).transport == config.transport,
        options_held(options).clean_session,
        config.client_id matches Some(id) ==> options_held(options).client_id == id@,
{
    let settings = mqtt_settings(config);
    let mut options = new_options(
        settings.client_id.as_str(),
        settings.broker_url.as_str(),
        settings.broker_port,
    );
    set_credentials(&mut options, settings.username.as_str(), settings.password.as_str());
    set_keep_alive(&mut options, settings.keep_alive_secs);
    set_clean_session(&mut options, settings.clean_session);
    set_max_packet_size(
        &mut options,
        settings.max_incoming_packet_size,
        settings.max_outgoing_packet_size,
    );
    set_inflight(&mut options, settings.inflight);
    set_manual_acks(&mut options, settings.manual_acks);
    set_pending_throttle(&mut options, settings.pending_throttle_ms);
    set_transport(&mut options, settings.transport);
    options
}

/// Build the two halves of an MQTT connection.
///
/// The caller owns both: publish through the client, and poll the event loop
/// so the connection makes progress. Neither half works without the other.
/// The event loop polls with the options that [`mqtt_options`] gives, and
/// reads what is published through the client.
#[must_use]
pub fn mqtt_parts(config: &MqttConfig) -> (parts: (AsyncClient, EventLoop))
    ensures
        feeds(parts.0, parts.1),
        request_capacity(parts.1) == REQUEST_CAPACITY,
        exists|suffix: u32|
            options_held(polled_options(parts.1)) == options_of(
                #[trigger] settings_of(config@, suffix),
            ),
        options_held(polled_options(parts.1)).broker_url == config.broker_url@,
        options_held(polled_options(parts.1)).broker_port == config.broker_port,
        options_held(polled_options(parts.1)).login == Some((config.username@, config.password@)),
        options_held(polled_options(parts.1)).transport == config.transport,
        options_held(polled_options(parts.1)).clean_session,
        config.client_id matches Some(id) ==> options_held(polled_options(parts.1)).client_id
            == id@,
{
    new_parts(mqtt_options(config), REQUEST_CAPACITY)
}

/// Every connection asks for a clean session, whatever the configuration
/// says, so a reconnect always discards what is outstanding.
pub proof fn law_every_session_is_clean(config: ConfigView, suffix: u32)
    ensures
        options_of(settings_of(config, suffix)).clean_session,
{
}

/// A caller that names its connection reaches the broker under that name,
/// and no random number changes anything.
pub proof fn law_a_named_connection_keeps_its_name(config: ConfigView, a: u32, b: u32)
    requires
        config.client_id is Some,
    ensures
        Some(options_of(settings_of(config, a)).client_id) == config.client_id,
        settings_of(config, a) == settings_of(config, b),
{
}

// ---------------------------------------------------------------------------
// Trusted roots
// ---------------------------------------------------------------------------

/// Declares `rustls::RootCertStore`, the root certificates a TLS connection
/// trusts.
#[verifier::external_type_specification]
#[verifier::external_body]
pub struct ExRootCertStore(rustls::RootCertStore);

/// Why `RootCertStore::add` refuses a DER-encoded certificate, as text, or
/// `None` when it adds it.
pub uninterp spec fn root_refusal(der: Seq<u8>) -> Option<Seq<char>>;

/// What `RootCertStore::add` keeps of a DER-encoded certificate that parses:
/// its subject, its public key and, if it has any, its name constraints,
/// each in DER.
pub uninterp spec fn anchor_of(der: Seq<u8>) -> (Seq<u8>, Seq<u8>, Option<Seq<u8>>);

/// The trust anchors that a `rustls::RootCertStore` holds, in order: of
/// each, the subject, the public key and the name constraints.
pub uninterp spec fn roots_held(store: rustls::RootCertStore) -> Seq<
    (Seq<u8>, Seq<u8>, Option<Seq<u8>>),
>;

/// Calls `RootCertStore::empty`, which makes a store that holds nothing.
#[verifier::external_body]
fn no_roots() -> (store: rustls::RootCertStore)
    ensures
        roots_held(store) == Seq::<(Seq<u8>, Seq<u8>, Option<Seq<u8>>)>::empty(),
{
    rustls::RootCertStore::empty()
}

/// Calls `RootCertStore::add`, which puts the trust anchor of a certificate
/// that parses behind those the store holds, and otherwise leaves the store
/// as it was and gives an error. The error comes back as its text.
#[verifier::external_body]
fn add_root(store: &mut rustls::RootCertStore, der: Vec<u8>) -> (refused: Option<String>)
    ensures
        payload::view_of(refused) == root_refusal(der@),
        roots_held(*final(store)) == if root_refusal(der@) is None {
            roots_held(*old(store)).push(anchor_of(der@))
        } else {
            roots_held(*old(store))
        },
{
    match store.add(rustls::pki_types::CertificateDer::from(der)) {
        Ok(()) => None,
        Err(error) => Some(error.to_string()),
    }
}

/// Calls `RootCertStore::is_empty`, which says whether the store holds no
/// trust anchor.
#[verifier::external_body]
fn has_no_roots(store: &rustls::RootCertStore) -> (none: bool)
    ensures
        none == (roots_held(*store).len() == 0),
{
    store.is_empty()
}

/// The trust anchors of the certificates that can be trusted, in order.
pub open spec fn roots_among(certs: Seq<Vec<u8>>) -> Seq<(Seq<u8>, Seq<u8>, Option<Seq<u8>>)>
    decreases certs.len(),
{
    if certs.len() == 0 {
        seq![]
    } else if root_refusal(certs.last()@) is None {
        roots_among(certs.drop_last()).push(anchor_of(certs.last()@))
    } else {
        roots_among(certs.drop_last())
    }
}

/// Why the other certificates were skipped, in order.
pub open spec fn refusals_among(certs: Seq<Vec<u8>>) -> Seq<Seq<char>>
    decreases certs.len(),
{
    if certs.len() == 0 {
        seq![]
    } else {
        match root_refusal(certs.last()@) {
            Some(reason) => refusals_among(certs.drop_last()).push(reason),
            None => refusals_among(certs.drop_last()),
        }
    }
}

/// What a list of DER-encoded certificates gives a TLS connection to trust.
pub struct TrustedRoots {
    /// The roots, or the error when there is none to trust.
    pub roots: Result<rustls::RootCertStore, SparkplugError>,
    /// Why each certificate that was skipped was skipped.
    pub skipped: Vec<String>,
}

/// Gather the root certificates that a TLS connection can trust, and skip
/// those that do not parse.
///
/// The roots are [`SparkplugError::Connection`] when there is none to trust.
#[must_use]
pub fn trusted_roots(certs: Vec<Vec<u8>>) -> (trusted: TrustedRoots)
    ensures
        match trusted.roots {
            Ok(roots) => roots_held(roots) == roots_among(certs@) && roots_among(certs@).len() > 0,
            Err(error) => {
                &&& roots_among(certs@).len() == 0
                &&& error matches SparkplugError::Connection(reason)
                &&& reason@ == "no trusted root certificates found"@
            },
        },
        text::text_views(trusted.skipped@) == refusals_among(certs@),
{
    let mut store = no_roots();
    let mut skipped: Vec<String> = Vec::new();
    let ghost all = certs@;
    for cert in iter: certs
        invariant
            iter.seq() == all,
            roots_held(store) == roots_among(all.take(iter.index() as int)),
            text::text_views(skipped@) == refusals_among(all.take(iter.index() as int)),
    {
        let ghost done = iter.index() as int;
        let ghost before = skipped@;
        assert(all.take(done + 1).drop_last() =~= all.take(done));
        assert(all.take(done + 1).last() == cert);
        if let Some(reason) = add_root(&mut store, cert) {
            skipped.push(reason);
            assert(text::text_views(skipped@) =~= text::text_views(before).push(reason@));
        }
    }
    assert(all.take(all.len() as int) =~= all);
    if has_no_roots(&store) {
        let reason = "no trusted root certificates found".to_owned();
        return TrustedRoots { roots: Err(SparkplugError::Connection(reason)), skipped };
    }
    TrustedRoots { roots: Ok(store), skipped }
}

/// Whether a trust anchor is that of a certificate that parses.
pub open spec fn is_anchor_among(
    certs: Seq<Vec<u8>>,
    anchor: (Seq<u8>, Seq<u8>, Option<Seq<u8>>),
) -> bool {
    exists|j: int|
        0 <= j < certs.len() && root_refusal((#[trigger] certs[j])@) is None && anchor == anchor_of(
            certs[j]@,
        )
}

/// Every certificate is either trusted or skipped, and what is trusted is
/// the anchor of a certificate that parses.
pub proof fn law_every_certificate_is_trusted_or_skipped(certs: Seq<Vec<u8>>)
    ensures
        roots_among(certs).len() + refusals_among(certs).len() == certs.len(),
        forall|i: int|
            0 <= i < roots_among(certs).len() ==> is_anchor_among(
                certs,
                #[trigger] roots_among(certs)[i],
            ),
    decreases certs.len(),
{
    if certs.len() > 0 {
        let before = certs.drop_last();
        law_every_certificate_is_trusted_or_skipped(before);
        assert forall|i: int| 0 <= i < roots_among(certs).len() implies is_anchor_among(
            certs,
            #[trigger] roots_among(certs)[i],
        ) by {
            if i < roots_among(before).len() {
                assert(is_anchor_among(before, roots_among(before)[i]));
                let j = choose|j: int|
                    0 <= j < before.len() && root_refusal((#[trigger] before[j])@) is None
                        && roots_among(before)[i] == anchor_of(before[j]@);
                assert(certs[j] == before[j]);
            } else {
                assert(certs[certs.len() - 1] == certs.last());
            }
        }
    }
}

// ---------------------------------------------------------------------------
// What a connection takes from its configuration
// ---------------------------------------------------------------------------

/// The connection goes where the configuration says, as the user it names,
/// over the transport it names.
pub proof fn law_the_connection_goes_where_the_configuration_says(config: ConfigView, suffix: u32)
    ensures
        ({
            let settings = settings_of(config, suffix);
            let options = options_of(settings);
            &&& settings.broker_url == config.broker_url
            &&& settings.broker_port == config.broker_port
            &&& settings.username == config.username
            &&& settings.password == config.password
            &&& settings.transport == config.transport
            &&& options.broker_url == config.broker_url
            &&& options.broker_port == config.broker_port
            &&& options.login == Some((config.username, config.password))
            &&& options.transport == config.transport
        }),
{
}

/// Two configurations that give the same options name the same broker, the
/// same user and the same transport: nothing of a configuration is lost on
/// the way.
pub proof fn law_options_tell_configurations_apart(
    a: ConfigView,
    b: ConfigView,
    first: u32,
    second: u32,
)
    requires
        options_of(settings_of(a, first)) == options_of(settings_of(b, second)),
    ensures
        a.broker_url == b.broker_url,
        a.broker_port == b.broker_port,
        a.username == b.username,
        a.password == b.password,
        a.transport == b.transport,
        a.client_id is Some && b.client_id is Some ==> a.client_id == b.client_id,
        a.client_id is None && b.client_id is None && a.version == b.version ==> first == second,
{
    if a.client_id is None && b.client_id is None && a.version == b.version {
        law_the_suffix_carries_all_of_the_difference(a.version, first, second);
    }
}

/// What no configuration changes: how often the connection is kept alive,
/// that its session is clean, how large a packet and how long its queue may
/// be, and that the client acknowledges by itself.
pub proof fn law_every_connection_is_set_up_alike(config: ConfigView, suffix: u32)
    ensures
        ({
            let options = options_of(settings_of(config, suffix));
            &&& options.keep_alive_secs == 15
            &&& options.clean_session
            &&& options.max_incoming_packet_size == 10 * 1024 * 1024
            &&& options.max_outgoing_packet_size == 10 * 1024 * 1024
            &&& options.inflight == 100
            &&& !options.manual_acks
            &&& options.pending_throttle_ms == 100
            &&& REQUEST_CAPACITY == 10
        }),
{
}

/// Settings become options one for one.
pub proof fn law_options_hold_the_settings(settings: SettingsView)
    ensures
        options_of(settings).client_id == settings.client_id,
        options_of(settings).broker_url == settings.broker_url,
        options_of(settings).broker_port == settings.broker_port,
        options_of(settings).login == Some((settings.username, settings.password)),
        options_of(settings).keep_alive_secs == settings.keep_alive_secs,
        options_of(settings).clean_session == settings.clean_session,
        options_of(settings).max_incoming_packet_size == settings.max_incoming_packet_size,
        options_of(settings).max_outgoing_packet_size == settings.max_outgoing_packet_size,
        options_of(settings).inflight == settings.inflight,
        options_of(settings).manual_acks == settings.manual_acks,
        options_of(settings).pending_throttle_ms == settings.pending_throttle_ms,
        options_of(settings).transport == settings.transport,
{
}

/// A connection with no name of its own takes the version, an underscore and
/// the suffix in eight hexadecimal digits.
pub proof fn law_an_unnamed_connection_is_named_by_its_suffix(config: ConfigView, suffix: u32)
    ensures
        config.client_id is None ==> options_of(settings_of(config, suffix)).client_id
            == config.version + seq!['_'] + text::hexadecimal(suffix as nat, 8),
        config.client_id matches Some(id) ==> options_of(settings_of(config, suffix)).client_id
            == id,
{
    reveal_strlit("_");
    assert("_"@ =~= seq!['_']);
}

/// What a configuration and its settings hold is what their fields hold.
pub proof fn law_a_configuration_shows_its_fields(config: MqttConfig, settings: MqttSettings)
    ensures
        config@.broker_url == config.broker_url@,
        config@.broker_port == config.broker_port,
        config@.transport == config.transport,
        config@.username == config.username@,
        config@.password == config.password@,
        config.client_id matches Some(id) ==> config@.client_id == Some(id@),
        config.client_id is None ==> config@.client_id is None,
        config@.version == config.version@,
        settings@.client_id == settings.client_id@,
        settings@.broker_url == settings.broker_url@,
        settings@.broker_port == settings.broker_port,
        settings@.username == settings.username@,
        settings@.password == settings.password@,
        settings@.keep_alive_secs == settings.keep_alive_secs,
        settings@.clean_session == settings.clean_session,
        settings@.max_incoming_packet_size == settings.max_incoming_packet_size,
        settings@.max_outgoing_packet_size == settings.max_outgoing_packet_size,
        settings@.inflight == settings.inflight,
        settings@.manual_acks == settings.manual_acks,
        settings@.pending_throttle_ms == settings.pending_throttle_ms,
        settings@.transport == settings.transport,
{
}

/// A configuration is shown with every field but the password, in order:
/// each text quoted, the port in base ten.
pub proof fn law_a_configuration_is_shown_field_by_field(config: ConfigView)
    ensures
        ({
            let id = match config.client_id {
                Some(id) => "Some("@ + text::debug_quoted(id) + ")"@,
                None => "None"@,
            };
            shown_config(config) == "MqttConfig { broker_url: "@ + text::debug_quoted(
                config.broker_url,
            ) + ", broker_port: "@ + text::decimal(config.broker_port as nat) + ", username: "@
                + text::debug_quoted(config.username)
                + ", password: \"[REDACTED]\", client_id: "@ + id + ", version: "@
                + text::debug_quoted(config.version) + ", .. }"@
        }),
{
}

/// The roots are the anchors of the certificates that parse, in order and
/// each once, and the reasons are those of the others, in order and each
/// once.
pub proof fn law_certificates_are_sorted_by_whether_they_parse(certs: Seq<Vec<u8>>)
    ensures
        roots_among(certs) == certs.filter(|c: Vec<u8>| root_refusal(c@) is None).map_values(
            |c: Vec<u8>| anchor_of(c@),
        ),
        refusals_among(certs) == certs.filter(|c: Vec<u8>| root_refusal(c@) is Some).map_values(
            |c: Vec<u8>| root_refusal(c@)->Some_0,
        ),
    decreases certs.len(),
{
    reveal(Seq::filter);
    let parses = |c: Vec<u8>| root_refusal(c@) is None;
    let fails = |c: Vec<u8>| root_refusal(c@) is Some;
    let anchor = |c: Vec<u8>| anchor_of(c@);
    let reason = |c: Vec<u8>| root_refusal(c@)->Some_0;
    if certs.len() == 0 {
        assert(roots_among(certs) =~= certs.filter(parses).map_values(anchor));
        assert(refusals_among(certs) =~= certs.filter(fails).map_values(reason));
    } else {
        let before = certs.drop_last();
        law_certificates_are_sorted_by_whether_they_parse(before);
        assert(before.filter(parses).push(certs.last()).map_values(anchor)
            =~= before.filter(parses).map_values(anchor).push(anchor_of(certs.last()@)));
        assert(before.filter(fails).push(certs.last()).map_values(reason)
            =~= before.filter(fails).map_values(reason).push(
            root_refusal(certs.last()@)->Some_0,
        ));
    }
}

} // verus!
