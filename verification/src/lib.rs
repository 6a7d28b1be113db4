//! Captive-portal WiFi tooling: the nl80211 scan protocol, the station list it
//! produces, and the command vocabulary shared by the network and web sides.

pub mod error;
pub mod network;
pub mod nl80211;
pub mod opts;
pub mod order;
pub mod portal;
pub mod text;
pub mod web;
