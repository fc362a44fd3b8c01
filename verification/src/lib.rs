//! Verified core logic of the nks-smart-home ESP32 firmware: configuration
//! checks, the built-in schema registry, GPIO resource claims, the relay
//! module and logical device state machines, the MQTT topic layout and config
//! command contract, the runtime's connectivity decisions and LED patterns,
//! the provisioning flow, the portal's routing and the stored configuration.

pub mod board;
pub mod config;
pub mod control;
pub mod devices;
pub mod error;
pub mod gpio;
pub mod indicator;
pub mod keyed;
pub mod modules;
pub mod mqtt;
pub mod portal;
pub mod provisioning;
pub mod runtime;
pub mod schemas;
pub mod storage;
pub mod text;
