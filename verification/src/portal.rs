//! The decisions around the captive portal: which device to use, which stored
//! profiles are left over from an earlier run, what the access point profile
//! holds, and when a connection has settled. The network management service
//! itself is reached by the caller, who hands in what it read as plain values.

use vstd::prelude::*;
use crate::network::{CommandResponse, ConnectionDetails, ssid_text, ssid_to_str};
use crate::order::str_eq;

verus! {

/// How many times the end of a scan is polled for, a second apart.
pub const WIFI_SCAN_TIMEOUT_SECONDS: usize = 45;

/// Connection type of wireless profiles.
pub const SETTING_WIRELESS_SETTING_NAME: &'static str = "802-11-wireless";

/// Wireless mode of an access point.
pub const SETTING_WIRELESS_MODE_AP: &'static str = "ap";

/// Method of an address configuration that is given by hand.
pub const SETTING_IP4_CONFIG_METHOD_MANUAL: &'static str = "manual";

/// What is read of the kind of a device.
#[derive(Debug, Clone, Copy, PartialEq, Eq, Structural)]
pub enum DeviceType {
    Wifi,
    Other,
}

/// What is read of the state of a device.
#[derive(Debug, Clone, Copy, PartialEq, Eq, Structural)]
pub enum DeviceState {
    Unmanaged,
    Managed,
}

/// What is read of a network device.
#[derive(Debug, Clone)]
pub struct Device {
    pub iface: String,
    pub device_type: DeviceType,
    pub state: DeviceState,
}

/// Why no device can be used.
#[derive(Debug, Clone, Copy, PartialEq, Eq, Structural)]
pub enum DeviceError {
    /// No device has the interface name.
    InterfaceNotFound,
    /// The device of that name is no wireless device.
    NotAWifiInterface,
    /// The device of that name is not under management.
    NotManaged,
    /// No wireless device is under management.
    NoManagedWifiDevice,
}

/// Whether a device can carry the portal: wireless and under management.
pub open spec fn is_usable(device: Device) -> bool {
    device.device_type == DeviceType::Wifi && device.state != DeviceState::Unmanaged
}

/// Where the first device that satisfies `wanted` stands, or the number of
/// devices if none does.
pub open spec fn first_device(devices: Seq<Device>, wanted: spec_fn(Device) -> bool) -> int
    decreases devices.len(),
{
    if devices.len() == 0 {
        0
    } else if wanted(devices[0]) {
        0
    } else {
        1 + first_device(devices.skip(1), wanted)
    }
}

/// The device of the given interface name, as far as it can be used: the
/// first of that name, which must be wireless and under management.
pub open spec fn exact_device(devices: Seq<Device>, interface: Seq<char>) -> Result<
    int,
    DeviceError,
> {
    let at = first_device(devices, |d: Device| d.iface@ == interface);
    if at >= devices.len() {
        Err(DeviceError::InterfaceNotFound)
    } else if devices[at].device_type != DeviceType::Wifi {
        Err(DeviceError::NotAWifiInterface)
    } else if devices[at].state == DeviceState::Unmanaged {
        Err(DeviceError::NotManaged)
    } else {
        Ok(at)
    }
}

/// The first device that can be used.
pub open spec fn any_wifi_device(devices: Seq<Device>) -> Result<int, DeviceError> {
    let at = first_device(devices, |d: Device| is_usable(d));
    if at >= devices.len() {
        Err(DeviceError::NoManagedWifiDevice)
    } else {
        Ok(at)
    }
}

/// `found` is `expected`, as a position among the devices.
pub open spec fn device_found_as(
    found: Result<usize, DeviceError>,
    expected: Result<int, DeviceError>,
    count: nat,
) -> bool {
    match (found, expected) {
        (Ok(at), Ok(wanted)) => at == wanted && at < count,
        (Err(e), Err(f)) => e == f,
        _ => false,
    }
}

/// Finds the device of the given interface name and checks that it can be
/// used.
pub fn get_exact_device(devices: &Vec<Device>, interface: &str) -> (found: Result<
    usize,
    DeviceError,
>)
    ensures
        device_found_as(found, exact_device(devices@, interface@), devices@.len()),
{
    let ghost wanted = |d: Device| d.iface@ == interface@;
    let mut at: usize = 0;
    assert(devices@.skip(0) =~= devices@);
    while at < devices.len()
        invariant
            at <= devices@.len(),
            wanted == (|d: Device| d.iface@ == interface@),
            first_device(devices@, wanted) == at + first_device(devices@.skip(at as int), wanted),
        decreases devices@.len() - at,
    {
        assert(devices@.skip(at as int)[0] == devices@[at as int]);
        assert(devices@.skip(at as int).skip(1) =~= devices@.skip(at + 1));
        if str_eq(devices[at].iface.as_str(), interface) {
            let device = &devices[at];
            return match (device.device_type, device.state) {
                (DeviceType::Other, _) => Err(DeviceError::NotAWifiInterface),
                (DeviceType::Wifi, DeviceState::Unmanaged) => Err(DeviceError::NotManaged),
                (DeviceType::Wifi, DeviceState::Managed) => Ok(at),
            };
        }
        at += 1;
    }
    Err(DeviceError::InterfaceNotFound)
}

/// Finds the first device that can be used.
pub fn find_any_wifi_device(devices: &Vec<Device>) -> (found: Result<usize, DeviceError>)
    ensures
        device_found_as(found, any_wifi_device(devices@), devices@.len()),
{
    let ghost wanted = |d: Device| is_usable(d);
    let mut at: usize = 0;
    assert(devices@.skip(0) =~= devices@);
    while at < devices.len()
        invariant
            at <= devices@.len(),
            wanted == (|d: Device| is_usable(d)),
            first_device(devices@, wanted) == at + first_device(devices@.skip(at as int), wanted),
        decreases devices@.len() - at,
    {
        assert(devices@.skip(at as int)[0] == devices@[at as int]);
        assert(devices@.skip(at as int).skip(1) =~= devices@.skip(at + 1));
        let device = &devices[at];
        match (device.device_type, device.state) {
            (DeviceType::Wifi, DeviceState::Managed) => {
                return Ok(at);
            },
            _ => {},
        }
        at += 1;
    }
    Err(DeviceError::NoManagedWifiDevice)
}

/// Finds the device for the portal: the one of the interface name if one is
/// given, else the first that can be used.
pub fn find_device(devices: &Vec<Device>, interface: Option<&str>) -> (found: Result<
    usize,
    DeviceError,
>)
    ensures
        device_found_as(
            found,
            match interface {
                Some(iface) => exact_device(devices@, iface@),
                None => any_wifi_device(devices@),
            },
            devices@.len(),
        ),
{
    match interface {
        Some(iface) => get_exact_device(devices, iface),
        None => find_any_wifi_device(devices),
    }
}

/// What is read of the general settings of a stored profile.
#[derive(Debug, Clone)]
pub struct SettingConnection {
    pub id: Option<String>,
    pub uuid: Option<String>,
    pub connection_type: Option<String>,
}

/// What is read of the wireless settings of a stored profile.
#[derive(Debug, Clone)]
pub struct SettingWireless {
    pub mode: Option<String>,
    pub ssid: Option<Vec<u8>>,
}

/// What is read of a stored connection profile.
#[derive(Debug, Clone)]
pub struct Connection {
    pub setting_connection: Option<SettingConnection>,
    pub setting_wireless: Option<SettingWireless>,
}

/// Whether a profile is of the wireless type.
pub open spec fn wifi_connection(connection: Connection) -> bool {
    match connection.setting_connection {
        Some(setting) => match setting.connection_type {
            Some(connection_type) => connection_type@ == SETTING_WIRELESS_SETTING_NAME@,
            None => false,
        },
        None => false,
    }
}

/// Whether the wireless mode of a profile is that of an access point.
pub open spec fn access_point_mode(connection: Connection) -> bool {
    match connection.setting_wireless {
        Some(setting) => match setting.mode {
            Some(mode) => mode@ == SETTING_WIRELESS_MODE_AP@,
            None => false,
        },
        None => false,
    }
}

/// The network name of a profile, if it has one and it is text.
pub open spec fn connection_ssid(connection: Connection) -> Option<Seq<char>> {
    match connection.setting_wireless {
        Some(setting) => ssid_text(
            match setting.ssid {
                Some(bytes) => Some(bytes@),
                None => None,
            },
        ),
        None => None,
    }
}

/// Whether a profile is an access point profile for the given network name:
/// what an earlier run of the portal leaves behind.
pub open spec fn stale_portal_profile(connection: Connection, ssid: Seq<char>) -> bool {
    wifi_connection(connection) && access_point_mode(connection) && connection_ssid(connection)
        == Some(ssid)
}

/// Whether a profile is of the wireless type.
pub fn is_wifi_connection(connection: &Connection) -> (wifi: bool)
    ensures
        wifi == wifi_connection(*connection),
{
    if let Some(setting) = &connection.setting_connection {
        if let Some(connection_type) = &setting.connection_type {
            return str_eq(connection_type.as_str(), SETTING_WIRELESS_SETTING_NAME);
        }
    }
    false
}

/// Whether the wireless mode of a profile is that of an access point.
pub fn is_access_point_mode(connection: &Connection) -> (ap: bool)
    ensures
        ap == access_point_mode(*connection),
{
    if let Some(setting) = &connection.setting_wireless {
        if let Some(mode) = &setting.mode {
            return str_eq(mode.as_str(), SETTING_WIRELESS_MODE_AP);
        }
    }
    false
}

/// Whether a profile is a wireless profile in access point mode.
pub fn is_access_point_connection(connection: &Connection) -> (ap: bool)
    ensures
        ap == (wifi_connection(*connection) && access_point_mode(*connection)),
{
    is_wifi_connection(connection) && is_access_point_mode(connection)
}

/// The network name of a profile, if it has one and it is text.
pub fn connection_ssid_to_string(connection: &Connection) -> (ssid: Option<String>)
    ensures
        ssid is Some <==> connection_ssid(*connection) is Some,
        ssid matches Some(s) ==> Some(s@) == connection_ssid(*connection),
{
    let setting = match &connection.setting_wireless {
        Some(setting) => setting,
        None => {
            return None;
        },
    };
    let bytes: Option<&[u8]> = match &setting.ssid {
        Some(v) => Some(v.as_slice()),
        None => None,
    };
    match ssid_to_str(bytes) {
        Some(text) => Some(text.to_owned()),
        None => None,
    }
}

/// Whether a profile has the given network name.
pub fn is_same_ssid(connection: &Connection, ssid: &str) -> (same: bool)
    ensures
        same == (connection_ssid(*connection) == Some(ssid@)),
{
    match connection_ssid_to_string(connection) {
        Some(own) => str_eq(own.as_str(), ssid),
        None => false,
    }
}

/// Whether a stored profile is to be deleted before the portal is set up: an
/// access point profile for the network name of the portal.
pub fn is_stale_portal_profile(connection: &Connection, ssid: &str) -> (stale: bool)
    ensures
        stale == stale_portal_profile(*connection, ssid@),
{
    is_access_point_connection(connection) && is_same_ssid(connection, ssid)
}

/// The name and identifier of a profile, if it has both.
pub open spec fn details_of(connection: Connection) -> Option<(Seq<char>, Seq<char>)> {
    match connection.setting_connection {
        Some(setting) => match (setting.id, setting.uuid) {
            (Some(id), Some(uuid)) => Some((id@, uuid@)),
            _ => None,
        },
        None => None,
    }
}

/// The names and identifiers of the profiles that have both, in the order
/// of the profiles.
pub open spec fn all_details(connections: Seq<Connection>) -> Seq<(Seq<char>, Seq<char>)>
    decreases connections.len(),
{
    if connections.len() == 0 {
        Seq::empty()
    } else {
        match details_of(connections.last()) {
            Some(details) => all_details(connections.drop_last()).push(details),
            None => all_details(connections.drop_last()),
        }
    }
}

/// Names and identifiers as values.
pub open spec fn detail_views(details: Seq<ConnectionDetails>) -> Seq<(Seq<char>, Seq<char>)> {
    details.map_values(|d: ConnectionDetails| (d.id@, d.uuid@))
}

/// The answer to a request for the stored profiles: those that have a name
/// and an identifier.
pub fn list_connections(all_connections: &Vec<Connection>) -> (response: CommandResponse)
    ensures
        match response {
            CommandResponse::ListConnections(connections) => detail_views(connections@)
                == all_details(all_connections@),
            _ => false,
        },
{
    let mut connections: Vec<ConnectionDetails> = Vec::new();
    let mut i: usize = 0;
    assert(all_connections@.take(0) =~= Seq::empty());
    assert(detail_views(connections@) =~= Seq::empty());
    while i < all_connections.len()
        invariant
            i <= all_connections@.len(),
            detail_views(connections@) == all_details(all_connections@.take(i as int)),
        decreases all_connections@.len() - i,
    {
        let ghost before = detail_views(connections@);
        assert(all_connections@.take(i + 1).last() == all_connections@[i as int]);
        assert(all_connections@.take(i + 1).drop_last() =~= all_connections@.take(i as int));
        if let Some(setting_connection) = &all_connections[i].setting_connection {
            if let Some(id) = &setting_connection.id {
                if let Some(uuid) = &setting_connection.uuid {
                    connections.push(ConnectionDetails::new(id.clone(), uuid.clone()));
                    assert(detail_views(connections@) =~= before.push((id@, uuid@)));
                }
            }
        }
        i += 1;
    }
    assert(all_connections@.take(i as int) =~= all_connections@);
    CommandResponse::ListConnections(connections)
}

/// Whether the end of a scan is still to be waited for: the device has not
/// scanned since the scan was asked for, and the time to wait is not used up.
pub fn scan_is_pending(prescan: i64, last_scan: i64, polls: usize) -> (pending: bool)
    ensures
        pending == (polls < WIFI_SCAN_TIMEOUT_SECONDS && prescan >= last_scan),
{
    polls < WIFI_SCAN_TIMEOUT_SECONDS && !(prescan < last_scan)
}

/// The state of an active connection.
#[derive(Debug, Clone, Copy, PartialEq, Eq, Structural)]
pub enum ActiveConnectionState {
    Unknown,
    Activating,
    Activated,
    Deactivating,
    Deactivated,
}

/// The state in which the watch over a connection ends, if `state` is one:
/// activated or deactivated. Every other state is passed through.
pub fn settled_state(state: ActiveConnectionState) -> (exit: Option<ActiveConnectionState>)
    ensures
        exit == match state {
            ActiveConnectionState::Activated => Some(ActiveConnectionState::Activated),
            ActiveConnectionState::Deactivated => Some(ActiveConnectionState::Deactivated),
            _ => None,
        },
{
    match state {
        ActiveConnectionState::Activated => Some(ActiveConnectionState::Activated),
        ActiveConnectionState::Deactivated => Some(ActiveConnectionState::Deactivated),
        _ => None,
    }
}

/// Whether the portal is up once its connection has settled in `state`: it
/// is unless the connection was deactivated, in which case its profile is to
/// be deleted again.
pub fn portal_is_up(state: ActiveConnectionState) -> (up: bool)
    ensures
        up == (state != ActiveConnectionState::Deactivated),
{
    match state {
        ActiveConnectionState::Deactivated => false,
        _ => true,
    }
}

/// How the access point is secured.
#[derive(Debug, Clone)]
pub struct WirelessSecurity {
    pub key_mgmt: String,
    pub psk: String,
}

/// The profile of the access point of the portal.
#[derive(Debug, Clone)]
pub struct ApConnection {
    pub connection_type: String,
    pub id: String,
    pub autoconnect: bool,
    pub interface_name: String,
    pub ssid: Vec<u8>,
    pub band: String,
    pub hidden: bool,
    pub mode: String,
    pub security: Option<WirelessSecurity>,
    pub method: String,
    pub address: String,
    pub prefix: u32,
}

/// Builds the profile of the access point: a visible wireless network in
/// access point mode on the 2.4 GHz band, named by the SSID, bound to the
/// interface, not connected by itself, with the gateway address set by hand
/// for a network of 24 bits, and secured with a passphrase if one is given.
pub fn create_ap_connection(
    interface: &str,
    ssid: &str,
    address: &str,
    passphrase: Option<&str>,
) -> (connection: ApConnection)
    ensures
        connection.connection_type@ == SETTING_WIRELESS_SETTING_NAME@,
        connection.id@ == ssid@,
        !connection.autoconnect,
        connection.interface_name@ == interface@,
        connection.ssid@ == vstd::utf8::encode_utf8(ssid@),
        connection.band@ == "bg"@,
        !connection.hidden,
        connection.mode@ == SETTING_WIRELESS_MODE_AP@,
        match (connection.security, passphrase) {
            (Some(security), Some(password)) => security.key_mgmt@ == "wpa-psk"@ && security.psk@
                == password@,
            (None, None) => true,
            _ => false,
        },
        connection.method@ == SETTING_IP4_CONFIG_METHOD_MANUAL@,
        connection.address@ == address@,
        connection.prefix == 24,
{
    let security = match passphrase {
        Some(password) => Some(
            WirelessSecurity { key_mgmt: "wpa-psk".to_owned(), psk: password.to_owned() },
        ),
        None => None,
    };
    ApConnection {
        connection_type: SETTING_WIRELESS_SETTING_NAME.to_owned(),
        id: ssid.to_owned(),
        autoconnect: false,
        interface_name: interface.to_owned(),
        ssid: ssid.as_bytes_vec(),
        band: "bg".to_owned(),
        hidden: false,
        mode: SETTING_WIRELESS_MODE_AP.to_owned(),
        security,
        method: SETTING_IP4_CONFIG_METHOD_MANUAL.to_owned(),
        address: address.to_owned(),
        prefix: 24,
    }
}

} // verus!
