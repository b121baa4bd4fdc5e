# sparkplug-mqtt

Sparkplug B over MQTT: topics, payloads, `seq` counts, delivery tracking and
the decisions of a client, written in Rust and verified with Verus.

## Layout

| Path | What it holds |
|------|---------------|
| `src/` | The library. It opens no socket and reads no file. |
| `src/wire.rs`, `src/schema.rs`, `src/payload/` | The bytes of a payload, and of every message that nests in it: reading, writing, why reading fails and where, and the proof that one gives back the other. |
| `src/sparkplug/topic.rs` | The topic namespace, in both directions. |
| `src/sparkplug/sequence.rs` | The `seq` count of each edge node. |
| `src/sparkplug/delivery.rs` | What the broker has acknowledged, and what a disconnect discarded. |
| `src/sparkplug/eventloop.rs` | What the poll loop does with each event. |
| `src/sparkplug/client/` | Publishing, the order of messages, and shutdown. |
| `app/` | A client on tokio and rumqttc around the library. |
| `tests/` | Tests of the library. |

## What is proved

Every function of `src/` is verified against its contract, except the small
ones that call another crate or std: `prost` for the bytes of a field,
`rumqttc` for the options and the halves of a connection, `rustls` for root
certificates, `rand` for a client id, and std for the clock and for some
texts. Each of those is marked `#[verifier::external_body]`, and its comment
says what is taken for granted of the function it calls.

## Two roles

A publisher client takes the edge node of each publish per call. It publishes
at QoS 1, so a flush reports what a reconnect discarded.

An edge node client names one edge node at connect and speaks for it alone.
It announces births, and it publishes at the QoS that Sparkplug fixes, so a
flush confirms nothing.

## Floating point

The library holds a floating-point value as its bits, and compares it as a
number. `app/` converts.
