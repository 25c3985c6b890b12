//! Art-Net to Home Assistant bridge: the verified core.
//!
//! - [`artnet`]: decoding of ArtDmx packets into an RGB triplet.
//! - [`bridge`]: the bridge loop's decisions (change-detect, black handling, rate cap).
//! - [`config`]: the configuration that the environment values give.
//! - [`text`]: trimming, comma-separated lists and decimal numbers.
//! - [`json`]: JSON values through `serde_json`, with their abstract content.
//! - [`ha_client`]: the Home Assistant WebSocket protocol (messages, handshake, results).
//! - [`reconnect`]: reconnect backoff, call outcomes and fatal authentication failures.

pub mod artnet;
pub mod bridge;
pub mod config;
pub mod ha_client;
pub mod json;
pub mod reconnect;
pub mod text;
