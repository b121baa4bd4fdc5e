//! The MQTT connection: its configuration, its options, its errors.

use std::time::Duration;

use sparkplug_mqtt::client::{
    client_id_with, mqtt_settings, settings_with, trusted_roots, REQUEST_CAPACITY,
};
use sparkplug_mqtt::{
    generate_client_id, mqtt_options, mqtt_parts, MessageType, MqttConfig, SparkplugError,
    Transport,
};

fn config() -> MqttConfig {
    MqttConfig {
        broker_url: "localhost".to_owned(),
        broker_port: 1883,
        transport: Transport::Tcp,
        username: String::new(),
        password: String::new(),
        client_id: None,
        version: "spBv1.0".to_owned(),
    }
}

#[test]
fn mqtt_config_construction() {
    let config = config();
    assert_eq!(config.broker_port, 1883);
    assert_eq!(config.version, "spBv1.0");
}

#[test]
fn client_id_format() {
    let id = generate_client_id("spBv1.0");
    assert!(id.starts_with("spBv1.0_"));
    let suffix: &str = id
        .rsplit('_')
        .next()
        .expect("client ID should contain underscores");
    assert_eq!(suffix.len(), 8, "the suffix holds a 32-bit value in hex");
    assert!(
        u32::from_str_radix(suffix, 16).is_ok(),
        "the suffix must read as hex, got {suffix:?}"
    );
}

#[test]
fn a_suffix_is_written_in_eight_digits() {
    assert_eq!(client_id_with("spBv1.0", 0x9f3c_1ba7), "spBv1.0_9f3c1ba7");
    assert_eq!(client_id_with("v", 0), "v_00000000");
    assert_eq!(client_id_with("v", 0xdead), "v_0000dead");
    assert_eq!(client_id_with("v", u32::MAX), "v_ffffffff");
    assert_ne!(client_id_with("v", 1), client_id_with("v", 16));
}

#[test]
fn generated_client_ids_differ() {
    let ids: Vec<String> = (0..16).map(|_| generate_client_id("v")).collect();
    assert!(
        ids.iter().any(|id| *id != ids[0]),
        "sixteen draws of 32 bits must not all agree"
    );
}

#[test]
fn mqtt_config_debug_redacts_password() {
    let mut config = config();
    config.username = "admin".to_owned();
    config.password = "super_secret_password".to_owned();

    let debug_output = config.debug_text();
    assert!(
        debug_output.contains("[REDACTED]"),
        "password should be redacted in Debug output"
    );
    assert!(
        !debug_output.contains("super_secret_password"),
        "actual password must not appear in Debug output"
    );
    assert!(
        debug_output.contains("localhost"),
        "other fields should be visible"
    );
}

#[test]
fn the_shown_configuration_names_every_other_field() {
    let mut config = config();
    config.username = "ad\"min".to_owned();
    assert_eq!(
        config.debug_text(),
        "MqttConfig { broker_url: \"localhost\", broker_port: 1883, username: \"ad\\\"min\", \
         password: \"[REDACTED]\", client_id: None, version: \"spBv1.0\", .. }"
    );
    config.client_id = Some("stax".to_owned());
    config.password = "x".to_owned();
    assert_eq!(
        config.clone().debug_text(),
        "MqttConfig { broker_url: \"localhost\", broker_port: 1883, username: \"ad\\\"min\", \
         password: \"[REDACTED]\", client_id: Some(\"stax\"), version: \"spBv1.0\", .. }"
    );
}

#[test]
fn sparkplug_requires_a_clean_session() {
    assert!(
        mqtt_options(&config()).clean_session(),
        "Sparkplug requires clean_session = true; flush reports the \
         publishes a reconnect discards because of it"
    );
}

#[test]
fn the_options_carry_the_generated_client_id() {
    let options = mqtt_options(&config());
    assert!(options.client_id().starts_with("spBv1.0_"));
}

#[test]
fn the_options_carry_the_client_id_the_caller_gives() {
    let config = MqttConfig {
        client_id: Some("stax-publisher-7".to_owned()),
        ..config()
    };
    assert_eq!(
        mqtt_options(&config).client_id(),
        "stax-publisher-7",
        "a caller that names its connection must reach the broker under \
         that name"
    );
}

#[test]
fn the_options_carry_every_setting() {
    let mut config = config();
    config.username = "admin".to_owned();
    config.password = "pw".to_owned();
    let options = mqtt_options(&config);
    assert_eq!(options.broker_address(), ("localhost".to_owned(), 1883));
    let login = options.credentials().expect("credentials are always set");
    assert_eq!(login.username, "admin");
    assert_eq!(login.password, "pw");
    assert_eq!(options.keep_alive(), Duration::from_secs(15));
    assert_eq!(options.max_packet_size(), 10 * 1024 * 1024);
    assert_eq!(options.inflight(), 100);
    assert!(!options.manual_acks());
    assert_eq!(options.pending_throttle(), Duration::from_millis(100));
    assert!(matches!(options.transport(), Transport::Tcp));
}

#[test]
fn the_transport_reaches_the_options() {
    let config = MqttConfig {
        transport: Transport::Unix,
        ..config()
    };
    assert!(matches!(mqtt_options(&config).transport(), Transport::Unix));
}

#[test]
fn the_settings_follow_the_configuration() {
    let settings = settings_with(&config(), 7);
    assert_eq!(settings.client_id, "spBv1.0_00000007");
    assert_eq!(settings.keep_alive_secs, 15);
    assert!(settings.clean_session);
    assert_eq!(settings.max_incoming_packet_size, 10_485_760);
    assert_eq!(settings.max_outgoing_packet_size, 10_485_760);
    assert_eq!(settings.inflight, 100);
    assert!(!settings.manual_acks);
    assert_eq!(settings.pending_throttle_ms, 100);

    let named = MqttConfig {
        client_id: Some("me".to_owned()),
        ..config()
    };
    assert_eq!(settings_with(&named, 7).client_id, "me");
    assert_eq!(mqtt_settings(&named).client_id, "me");
}

#[test]
fn the_two_halves_share_one_channel() {
    let (client, eventloop) = mqtt_parts(&config());
    assert_eq!(eventloop.mqtt_options.inflight(), 100);
    for _ in 0..REQUEST_CAPACITY {
        client
            .try_publish("t", rumqttc::QoS::AtMostOnce, false, vec![])
            .expect("the channel has room");
    }
    assert!(
        client
            .try_publish("t", rumqttc::QoS::AtMostOnce, false, vec![])
            .is_err(),
        "the channel holds ten requests"
    );
}

/// A certificate with every field a root needs, and nothing in them.
fn root_certificate(serial: u8) -> Vec<u8> {
    vec![
        0x30, 0x1a, // the certificate
        0x30, 0x12, // what is signed
        0xa0, 0x03, 0x02, 0x01, 0x02, // version 3
        0x02, 0x01, serial, // serial number
        0x30, 0x00, 0x30, 0x00, 0x30, 0x00, // algorithm, issuer, validity
        0x30, 0x00, 0x30, 0x00, // subject, public key
        0x30, 0x00, // algorithm
        0x03, 0x02, 0x00, 0x00, // signature
    ]
}

#[test]
fn a_tls_transport_needs_a_trusted_root() {
    for certs in [vec![], vec![vec![]], vec![vec![1, 2, 3], vec![0x30, 0x00]]] {
        let given = certs.len();
        let trusted = trusted_roots(certs);
        assert_eq!(trusted.skipped.len(), given);
        let err = trusted.roots.expect_err("nothing to trust");
        assert!(matches!(err, SparkplugError::Connection(_)));
        assert_eq!(
            err.message(),
            "connection failed: no trusted root certificates found"
        );
    }
}

#[test]
fn a_certificate_that_does_not_parse_is_skipped() {
    let trusted = trusted_roots(vec![
        root_certificate(1),
        b"no certificate".to_vec(),
        root_certificate(2),
    ]);
    let roots = trusted.roots.expect("two of them can be trusted");
    assert_eq!(roots.len(), 2);
    assert_eq!(trusted.skipped.len(), 1);
    let reason = rustls::RootCertStore::empty()
        .add(rustls::pki_types::CertificateDer::from(
            b"no certificate".to_vec(),
        ))
        .expect_err("it does not parse");
    assert_eq!(trusted.skipped[0], reason.to_string());
}

fn refused() -> rumqttc::ClientError {
    rumqttc::ClientError::Request(rumqttc::Request::Disconnect(rumqttc::Disconnect))
}

#[test]
fn each_error_says_what_happened() {
    let cases = [
        (
            SparkplugError::Connection("x".to_owned()),
            "connection failed: x",
        ),
        (
            SparkplugError::ConnectionTimeout(Duration::from_secs(5)),
            "connection timed out after 5s",
        ),
        (
            SparkplugError::Publish(refused()),
            "publish failed: Failed to send mqtt requests to eventloop",
        ),
        (
            SparkplugError::InvalidTopic("t".to_owned()),
            "invalid topic format: t",
        ),
        (
            SparkplugError::UnknownMessageType("X".to_owned()),
            "unknown message type: X",
        ),
        (
            SparkplugError::InvalidNamespace("a/b".to_owned()),
            "invalid namespace: a/b",
        ),
        (
            SparkplugError::WrongTopicShape {
                topic: "a/b".to_owned(),
                message_type: MessageType::NBIRTH,
            },
            "topic a/b has the wrong shape for NBIRTH",
        ),
        (
            SparkplugError::NotAnEdgeNode,
            "this client connected as a publisher and owns no edge node",
        ),
        (
            SparkplugError::PublishLost { count: 12 },
            "12 publish(es) were discarded when the MQTT connection dropped",
        ),
        (
            SparkplugError::Disconnect(refused()),
            "disconnect request failed: Failed to send mqtt requests to eventloop",
        ),
        (
            SparkplugError::ShutdownTimeout {
                after: Duration::from_millis(1500),
            },
            "shutdown could not confirm the DISCONNECT packet within 1.5s",
        ),
        (
            SparkplugError::FlushTimeout {
                after: Duration::from_secs(2),
                unacked: 3,
            },
            "flush timed out after 2s with 3 publish(es) unacknowledged",
        ),
    ];
    for (error, text) in cases {
        assert_eq!(error.message(), text);
    }
}

#[test]
fn an_error_of_an_outside_crate_keeps_its_own_text() {
    let decode = sparkplug_mqtt::decode_payload(&[0x08]).expect_err("a key with no value");
    let text = format!("payload decode failed: {decode}");
    let error = SparkplugError::from(decode);
    assert!(matches!(error, SparkplugError::Decode(_)));
    assert_eq!(error.message(), text);

    let mut no_room: [u8; 0] = [];
    let encode = prost::Message::encode(&300u64, &mut &mut no_room[..])
        .expect_err("there is no room for a byte");
    let text = format!("payload encode failed: {encode}");
    let error = SparkplugError::from(encode);
    assert!(matches!(error, SparkplugError::Encode(_)));
    assert_eq!(error.message(), text);

    let error = SparkplugError::from(refused());
    assert!(matches!(error, SparkplugError::Publish(_)));
    assert_eq!(error.message_with("why"), "publish failed: why");
}
