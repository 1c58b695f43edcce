//! Device logic for the MagTran M3 family of stream-deck style controllers,
//! as driven by an OpenDeck device plugin: key layout, HID input decoding,
//! the background-layer wire format, display and cache decisions, plugin
//! configuration, profile tracking and the transport worker's state machine.
pub mod layout;
pub mod inputs;
pub mod wire;
pub mod config;
pub mod keyed_map;
pub mod profile;
pub mod image_cache;
pub mod text;
pub mod display;
pub mod worker;
pub mod paths;
pub mod discovery;
pub mod image_util;
pub mod settings;
