//! Wireless interfaces as the kernel lists them.

use macaddr::MacAddr6;
use vstd::prelude::*;
use crate::nl80211::attr::{
    AttributeView, exact, get_attr_bytes, get_attr_text, get_attr_u32, get_attr_u64, required,
    text_attribute, u32_attribute, u64_attribute,
};
use crate::nl80211::consts::{
    NL80211_ATTR_IFINDEX, NL80211_ATTR_IFNAME, NL80211_ATTR_IFTYPE, NL80211_ATTR_MAC,
    NL80211_ATTR_WDEV, NL80211_ATTR_WIPHY, NL80211_IFTYPE_ADHOC, NL80211_IFTYPE_AP,
    NL80211_IFTYPE_AP_VLAN, NL80211_IFTYPE_MESH_POINT, NL80211_IFTYPE_MONITOR, NL80211_IFTYPE_NAN,
    NL80211_IFTYPE_OCB, NL80211_IFTYPE_P2P_CLIENT, NL80211_IFTYPE_P2P_DEVICE, NL80211_IFTYPE_P2P_GO,
    NL80211_IFTYPE_STATION, NL80211_IFTYPE_WDS,
};
use crate::nl80211::error::DecodeError;
use crate::nl80211::message::{GenlMessage, GenlMessageView};

verus! {

/// The role in which an interface operates.
#[derive(Debug, Clone, Copy, PartialEq, Eq, Structural, Hash)]
pub enum InterfaceType {
    Unspecified,
    Adhoc,
    Station,
    AP,
    APVlan,
    WDS,
    Monitor,
    MeshPoint,
    P2PClient,
    P2PGo,
    P2PDevice,
    Ocb,
    Nan,
}

/// The role that a number of the protocol stands for; a number that stands
/// for none is read as unspecified.
pub open spec fn interface_type_of(orig: u32) -> InterfaceType {
    if orig == NL80211_IFTYPE_ADHOC {
        InterfaceType::Adhoc
    } else if orig == NL80211_IFTYPE_STATION {
        InterfaceType::Station
    } else if orig == NL80211_IFTYPE_AP {
        InterfaceType::AP
    } else if orig == NL80211_IFTYPE_AP_VLAN {
        InterfaceType::APVlan
    } else if orig == NL80211_IFTYPE_WDS {
        InterfaceType::WDS
    } else if orig == NL80211_IFTYPE_MONITOR {
        InterfaceType::Monitor
    } else if orig == NL80211_IFTYPE_MESH_POINT {
        InterfaceType::MeshPoint
    } else if orig == NL80211_IFTYPE_P2P_CLIENT {
        InterfaceType::P2PClient
    } else if orig == NL80211_IFTYPE_P2P_GO {
        InterfaceType::P2PGo
    } else if orig == NL80211_IFTYPE_P2P_DEVICE {
        InterfaceType::P2PDevice
    } else if orig == NL80211_IFTYPE_OCB {
        InterfaceType::Ocb
    } else if orig == NL80211_IFTYPE_NAN {
        InterfaceType::Nan
    } else {
        InterfaceType::Unspecified
    }
}

impl From<u32> for InterfaceType {
    fn from(orig: u32) -> (kind: Self) {
        if orig == NL80211_IFTYPE_ADHOC {
            Self::Adhoc
        } else if orig == NL80211_IFTYPE_STATION {
            Self::Station
        } else if orig == NL80211_IFTYPE_AP {
            Self::AP
        } else if orig == NL80211_IFTYPE_AP_VLAN {
            Self::APVlan
        } else if orig == NL80211_IFTYPE_WDS {
            Self::WDS
        } else if orig == NL80211_IFTYPE_MONITOR {
            Self::Monitor
        } else if orig == NL80211_IFTYPE_MESH_POINT {
            Self::MeshPoint
        } else if orig == NL80211_IFTYPE_P2P_CLIENT {
            Self::P2PClient
        } else if orig == NL80211_IFTYPE_P2P_GO {
            Self::P2PGo
        } else if orig == NL80211_IFTYPE_P2P_DEVICE {
            Self::P2PDevice
        } else if orig == NL80211_IFTYPE_OCB {
            Self::Ocb
        } else if orig == NL80211_IFTYPE_NAN {
            Self::Nan
        } else {
            Self::Unspecified
        }
    }
}

impl vstd::std_specs::convert::FromSpecImpl<u32> for InterfaceType {
    open spec fn obeys_from_spec() -> bool {
        true
    }

    open spec fn from_spec(orig: u32) -> Self {
        interface_type_of(orig)
    }
}

/// `macaddr::MacAddr6`, a hardware address of six bytes: carried, not looked
/// into.
#[verifier::external_type_specification]
#[verifier::external_body]
pub struct ExMacAddr6(macaddr::MacAddr6);

/// The six bytes of a hardware address, in the order in which they are
/// written.
pub uninterp spec fn mac_octets(address: MacAddr6) -> Seq<u8>;

/// `MacAddr6::from` for an array of six bytes: the address holds these bytes
/// in their order. Believed of macaddr, not proved here.
#[verifier::external_body]
fn mac_from_octets(octets: [u8; 6]) -> (address: MacAddr6)
    ensures
        mac_octets(address) == octets@,
{
    MacAddr6::from(octets)
}

/// `Clone` for `MacAddr6`, which is `Copy`: the clone is the address itself.
/// Believed of macaddr, not proved here.
pub assume_specification[ <MacAddr6 as Clone>::clone ](address: &MacAddr6) -> (copy: MacAddr6)
    ensures
        copy == *address,
;

/// One wireless interface.
#[derive(Debug, Clone)]
pub struct Interface {
    pub name: String,
    pub index: u32,
    pub iftype: InterfaceType,
    pub wiphy: u32,
    pub wdev: u64,
    pub mac_address: MacAddr6,
}

/// An interface as a value.
pub struct InterfaceView {
    pub name: Seq<char>,
    pub index: u32,
    pub iftype: InterfaceType,
    pub wiphy: u32,
    pub wdev: u64,
    pub mac_address: Seq<u8>,
}

impl View for Interface {
    type V = InterfaceView;

    open spec fn view(&self) -> InterfaceView {
        InterfaceView {
            name: self.name@,
            index: self.index,
            iftype: self.iftype,
            wiphy: self.wiphy,
            wdev: self.wdev,
            mac_address: mac_octets(self.mac_address),
        }
    }
}

/// The hardware address among the attributes: a payload of exactly six bytes.
pub open spec fn mac_attribute(attrs: Seq<AttributeView>) -> Result<Seq<u8>, DecodeError> {
    match required(attrs, NL80211_ATTR_MAC) {
        Ok(payload) => exact(payload, 6, payload),
        Err(e) => Err(e),
    }
}

/// The interface that a message of an interface dump describes. Name, index,
/// type, radio, device identifier and hardware address must all be there and
/// have the width of their type; the first that fails, in this order, decides
/// the error.
pub open spec fn interface_of(message: GenlMessageView) -> Result<InterfaceView, DecodeError> {
    let attrs = message.attrs;
    match text_attribute(attrs, NL80211_ATTR_IFNAME) {
        Err(e) => Err(e),
        Ok(name) => match u32_attribute(attrs, NL80211_ATTR_IFINDEX) {
            Err(e) => Err(e),
            Ok(index) => match u32_attribute(attrs, NL80211_ATTR_IFTYPE) {
                Err(e) => Err(e),
                Ok(iftype) => match u32_attribute(attrs, NL80211_ATTR_WIPHY) {
                    Err(e) => Err(e),
                    Ok(wiphy) => match u64_attribute(attrs, NL80211_ATTR_WDEV) {
                        Err(e) => Err(e),
                        Ok(wdev) => match mac_attribute(attrs) {
                            Err(e) => Err(e),
                            Ok(mac_address) => Ok(
                                InterfaceView {
                                    name,
                                    index,
                                    iftype: interface_type_of(iftype),
                                    wiphy,
                                    wdev,
                                    mac_address,
                                },
                            ),
                        },
                    },
                },
            },
        },
    }
}

/// `result` is `expected`, the interface taken by its value.
pub open spec fn interface_decoded_as(
    result: Result<Interface, DecodeError>,
    expected: Result<InterfaceView, DecodeError>,
) -> bool {
    match (result, expected) {
        (Ok(interface), Ok(value)) => interface@ == value,
        (Err(e), Err(f)) => e == f,
        _ => false,
    }
}

impl Interface {
    /// Decodes the interface that a message of an interface dump describes.
    pub fn try_from(payload: &GenlMessage) -> (result: Result<Interface, DecodeError>)
        ensures
            interface_decoded_as(result, interface_of(payload@)),
    {
        let attrs = &payload.attrs;
        let name = match get_attr_text(attrs, NL80211_ATTR_IFNAME) {
            Ok(name) => name,
            Err(e) => {
                return Err(e);
            },
        };
        let index: u32 = match get_attr_u32(attrs, NL80211_ATTR_IFINDEX) {
            Ok(index) => index,
            Err(e) => {
                return Err(e);
            },
        };
        let iftype: InterfaceType = match get_attr_u32(attrs, NL80211_ATTR_IFTYPE) {
            Ok(iftype) => InterfaceType::from(iftype),
            Err(e) => {
                return Err(e);
            },
        };
        let wiphy: u32 = match get_attr_u32(attrs, NL80211_ATTR_WIPHY) {
            Ok(wiphy) => wiphy,
            Err(e) => {
                return Err(e);
            },
        };
        let wdev: u64 = match get_attr_u64(attrs, NL80211_ATTR_WDEV) {
            Ok(wdev) => wdev,
            Err(e) => {
                return Err(e);
            },
        };
        let mac = match get_attr_bytes(attrs, NL80211_ATTR_MAC) {
            Ok(mac) => mac,
            Err(e) => {
                return Err(e);
            },
        };
        if mac.len() != 6 {
            return Err(DecodeError::WrongWidth);
        }
        let mac_bytes: [u8; 6] = [mac[0], mac[1], mac[2], mac[3], mac[4], mac[5]];
        assert(mac_bytes@ =~= mac@);
        let mac_address = mac_from_octets(mac_bytes);
        Ok(Interface { name, index, iftype, wiphy, wdev, mac_address })
    }
}

} // verus!
