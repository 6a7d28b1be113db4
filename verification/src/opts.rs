//! What the daemon is started with.

use vstd::prelude::*;

verus! {

/// Address of the gateway of the captive portal.
pub const DEFAULT_GATEWAY: &'static str = "192.168.42.1";

/// Name of the access point where none is given.
pub const DEFAULT_SSID: &'static str = "WiFiConnect";

/// The options of the daemon.
#[derive(Debug, Clone)]
pub struct Opts {
    /// Name of the access point that the captive portal opens.
    pub ssid: String,
    /// Name of the wireless interface to use; any one if none is named.
    pub interface: Option<String>,
}

impl Opts {
    /// The options as given, with the default name for the access point where
    /// none is given.
    pub fn new(ssid: Option<String>, interface: Option<String>) -> (opts: Opts)
        ensures
            opts.interface == interface,
            match ssid {
                Some(name) => opts.ssid == name,
                None => opts.ssid@ == DEFAULT_SSID@,
            },
    {
        let ssid = match ssid {
            Some(name) => name,
            None => DEFAULT_SSID.to_owned(),
        };
        Opts { ssid, interface }
    }
}

} // verus!
