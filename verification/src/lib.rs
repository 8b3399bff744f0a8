//! Firmware logic of a Wi-Fi connected FM radio: tuner registers and RDS
//! decoding, presets, provisioning, over-the-air updates, the small network
//! protocols around them, and the rules of the control loop.

pub mod boot;
pub mod bytes;
pub mod clock;
pub mod crc;
pub mod diagnostics;
pub mod display;
pub mod flash;
pub mod listening_log;
pub mod mdns;
pub mod mdns_parser;
pub mod ntp;
pub mod ota;
pub mod ota_serve;
pub mod preset_codec;
pub mod presets;
pub mod rotary_encoder;
pub mod rt_plus_parser;
pub mod si4703;
pub mod spectrum;
pub mod state;
pub mod strings;
pub mod tasks;
pub mod text;
pub mod ui;
pub mod url_parser;
pub mod web;
pub mod wifi_provision;

use vstd::prelude::*;

verus! {

} // verus!
