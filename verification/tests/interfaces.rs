use wifi_connect::nl80211::attr::Attribute;
use wifi_connect::nl80211::error::DecodeError;
use wifi_connect::nl80211::interface::{Interface, InterfaceType};
use wifi_connect::nl80211::message::GenlMessage;

fn attribute(kind: u16, payload: &[u8]) -> Attribute {
    Attribute::new(false, false, kind, payload.to_vec()).unwrap()
}

fn interface_attributes() -> Vec<Attribute> {
    vec![
        attribute(3, &3u32.to_le_bytes()),
        attribute(4, b"wlan0\0"),
        attribute(1, &0u32.to_le_bytes()),
        attribute(5, &2u32.to_le_bytes()),
        attribute(153, &0x100000001u64.to_le_bytes()),
        attribute(6, &[0xAC, 0xDE, 0x48, 0x23, 0x45, 0x67]),
        attribute(46, &[5, 0, 0, 0]),
    ]
}

fn message(attrs: Vec<Attribute>) -> GenlMessage {
    GenlMessage { cmd: 7, version: 1, attrs }
}

fn without(kind: u16) -> GenlMessage {
    message(interface_attributes().into_iter().filter(|a| a.kind() != kind).collect())
}

fn with(kind: u16, payload: &[u8]) -> GenlMessage {
    let mut attrs = interface_attributes();
    attrs.push(attribute(kind, payload));
    message(attrs)
}

#[test]
fn interface_is_decoded_from_its_attributes() {
    let interface = Interface::try_from(&message(interface_attributes())).unwrap();
    assert_eq!(interface.name, "wlan0");
    assert_eq!(interface.index, 3);
    assert_eq!(interface.iftype, InterfaceType::Station);
    assert_eq!(interface.wiphy, 0);
    assert_eq!(interface.wdev, 0x100000001);
    assert_eq!(interface.mac_address.as_bytes(), &[0xAC, 0xDE, 0x48, 0x23, 0x45, 0x67]);
    assert_eq!(interface.mac_address.to_string(), "AC:DE:48:23:45:67");
}

#[test]
fn interface_without_an_attribute_is_not_decoded() {
    for kind in [1, 3, 4, 5, 6, 153] {
        assert_eq!(
            Interface::try_from(&without(kind)).err(),
            Some(DecodeError::MissingAttribute)
        );
    }
    assert!(Interface::try_from(&without(46)).is_ok());
}

#[test]
fn interface_with_a_malformed_attribute_is_an_error() {
    let wrong = |kind: u16, payload: &[u8]| Interface::try_from(&with(kind, payload)).err();
    assert_eq!(wrong(3, &[1, 0]), Some(DecodeError::WrongWidth));
    assert_eq!(wrong(5, &[1, 0, 0, 0, 0]), Some(DecodeError::WrongWidth));
    assert_eq!(wrong(1, &[]), Some(DecodeError::WrongWidth));
    assert_eq!(wrong(153, &[1, 0, 0, 0]), Some(DecodeError::WrongWidth));
    assert_eq!(wrong(6, &[1, 2, 3, 4, 5]), Some(DecodeError::WrongWidth));
    assert_eq!(wrong(6, &[1, 2, 3, 4, 5, 6, 7]), Some(DecodeError::WrongWidth));
    assert_eq!(wrong(4, &[0xFF, 0]), Some(DecodeError::InvalidText));
    assert_eq!(wrong(4, &[]), Some(DecodeError::InvalidText));
}

#[test]
fn first_failing_attribute_decides_the_error() {
    let mut attrs = interface_attributes();
    attrs.push(attribute(6, &[1]));
    attrs.push(attribute(4, &[0xFF, 0]));
    assert_eq!(Interface::try_from(&message(attrs)).err(), Some(DecodeError::InvalidText));
    let attrs: Vec<Attribute> = interface_attributes()
        .into_iter()
        .filter(|a| a.kind() != 3)
        .chain(std::iter::once(attribute(6, &[1])))
        .collect();
    assert_eq!(Interface::try_from(&message(attrs)).err(), Some(DecodeError::MissingAttribute));
}

#[test]
fn interface_types_are_numbered_as_in_the_protocol() {
    let expected = [
        InterfaceType::Unspecified,
        InterfaceType::Adhoc,
        InterfaceType::Station,
        InterfaceType::AP,
        InterfaceType::APVlan,
        InterfaceType::WDS,
        InterfaceType::Monitor,
        InterfaceType::MeshPoint,
        InterfaceType::P2PClient,
        InterfaceType::P2PGo,
        InterfaceType::P2PDevice,
        InterfaceType::Ocb,
        InterfaceType::Nan,
    ];
    for (number, kind) in expected.iter().enumerate() {
        assert_eq!(InterfaceType::from(number as u32), *kind);
    }
}

#[test]
fn unknown_interface_type_is_unspecified() {
    assert_eq!(InterfaceType::from(13), InterfaceType::Unspecified);
    assert_eq!(InterfaceType::from(u32::MAX), InterfaceType::Unspecified);
}

#[test]
fn interface_of_another_type_is_decoded() {
    let interface = Interface::try_from(&with(5, &3u32.to_le_bytes())).unwrap();
    assert_eq!(interface.iftype, InterfaceType::AP);
    let interface = Interface::try_from(&with(5, &77u32.to_le_bytes())).unwrap();
    assert_eq!(interface.iftype, InterfaceType::Unspecified);
}
