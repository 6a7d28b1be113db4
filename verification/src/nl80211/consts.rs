//! Numbers of the netlink and nl80211 protocols that this crate speaks.

use vstd::prelude::*;

verus! {

/// Name under which the kernel registers the wireless configuration family.
pub const NL80211_FAMILY_NAME: &'static str = "nl80211";

/// Name of the multicast group on which scan events are announced.
pub const SCAN_MULTICAST_NAME: &'static str = "scan";

/// Size of the buffer that one read from a netlink socket fills at most.
pub const MAX_NL_LENGTH: usize = 32768;

/// Message type of an error report or an acknowledgement.
pub const NLMSG_ERROR: u16 = 2;

/// Message type of the message that ends a dump.
pub const NLMSG_DONE: u16 = 3;

/// Flag of every request to the kernel.
pub const NLM_F_REQUEST: u16 = 1;

/// Flag that asks for an acknowledgement.
pub const NLM_F_ACK: u16 = 4;

/// Flags that ask for a dump: every object that matches.
pub const NLM_F_DUMP: u16 = 768;

/// Version of the nl80211 protocol that requests announce.
pub const NL80211_VERSION: u8 = 1;

/// Command: list the wireless interfaces.
pub const NL80211_CMD_GET_INTERFACE: u8 = 5;

/// Command: hand out the results of the last scan.
pub const NL80211_CMD_GET_SCAN: u8 = 32;

/// Command: start a scan.
pub const NL80211_CMD_TRIGGER_SCAN: u8 = 33;

/// Notification: a scan has finished and its results can be fetched.
pub const NL80211_CMD_NEW_SCAN_RESULTS: u8 = 34;

/// Attribute: index of the physical radio.
pub const NL80211_ATTR_WIPHY: u16 = 1;

/// Attribute: index of the network interface.
pub const NL80211_ATTR_IFINDEX: u16 = 3;

/// Attribute: name of the network interface.
pub const NL80211_ATTR_IFNAME: u16 = 4;

/// Attribute: role of the interface.
pub const NL80211_ATTR_IFTYPE: u16 = 5;

/// Attribute: hardware address.
pub const NL80211_ATTR_MAC: u16 = 6;

/// Attribute: one scan result, itself a sequence of attributes.
pub const NL80211_ATTR_BSS: u16 = 47;

/// Attribute: identifier of the virtual device.
pub const NL80211_ATTR_WDEV: u16 = 153;

/// Attribute: flags of a scan request.
pub const NL80211_ATTR_SCAN_FLAGS: u16 = 158;

/// Scan result attribute: the information elements of the last frame seen.
pub const NL80211_BSS_INFORMATION_ELEMENTS: u16 = 6;

/// Scan result attribute: signal power in hundredths of a dBm.
pub const NL80211_BSS_SIGNAL_MBM: u16 = 7;

/// Scan flag: the scan is made while operating as an access point.
pub const NL80211_SCAN_FLAG_AP: u32 = 4;

/// Interface types, as the protocol numbers them.
pub const NL80211_IFTYPE_UNSPECIFIED: u32 = 0;

pub const NL80211_IFTYPE_ADHOC: u32 = 1;

pub const NL80211_IFTYPE_STATION: u32 = 2;

pub const NL80211_IFTYPE_AP: u32 = 3;

pub const NL80211_IFTYPE_AP_VLAN: u32 = 4;

pub const NL80211_IFTYPE_WDS: u32 = 5;

pub const NL80211_IFTYPE_MONITOR: u32 = 6;

pub const NL80211_IFTYPE_MESH_POINT: u32 = 7;

pub const NL80211_IFTYPE_P2P_CLIENT: u32 = 8;

pub const NL80211_IFTYPE_P2P_GO: u32 = 9;

pub const NL80211_IFTYPE_P2P_DEVICE: u32 = 10;

pub const NL80211_IFTYPE_OCB: u32 = 11;

pub const NL80211_IFTYPE_NAN: u32 = 12;

} // verus!
