//! Talking to the kernel's wireless configuration family over generic netlink.

pub mod attr;
pub mod consts;
pub mod dump;
pub mod error;
pub mod ie;
pub mod interface;
pub mod message;
pub mod quality;
pub mod scan;
pub mod session;
pub mod wire;
