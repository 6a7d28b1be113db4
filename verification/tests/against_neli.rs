use neli::consts::nl::{NlmF, NlmFFlags};
use neli::genl::{Genlmsghdr, Nlattr};
use neli::nl::{NlPayload, Nlmsghdr};
use neli::types::{Buffer, GenlBuffer};
use neli::{FromBytes, ToBytes};
use wifi_connect::nl80211::attr::get_attr_u32;
use wifi_connect::nl80211::message::{parse_messages, GenlMessage};
use wifi_connect::nl80211::scan::{
    create_get_interface_message, create_get_scan_message, create_trigger_scan_message,
};

type Message = Nlmsghdr<u16, Genlmsghdr<u8, u16>>;

fn host_is_little_endian() -> bool {
    u16::from_ne_bytes([1, 0]) == 1
}

fn serialized(message: &Message) -> Vec<u8> {
    let mut buffer = std::io::Cursor::new(Vec::new());
    message.to_bytes(&mut buffer).unwrap();
    buffer.into_inner()
}

fn neli_request(nl_id: u16, flags: &[NlmF], cmd: u8, attrs: Vec<Nlattr<u16, Buffer>>) -> Message {
    let attrs: GenlBuffer<u16, Buffer> = attrs.into_iter().collect();
    let genl = Genlmsghdr::new(cmd, 1, attrs);
    Nlmsghdr::new(None, nl_id, NlmFFlags::new(flags), None, None, NlPayload::Payload(genl))
}

#[test]
fn get_interface_request_is_what_neli_serializes() {
    if !host_is_little_endian() {
        return;
    }
    let theirs = neli_request(28, &[NlmF::Request, NlmF::Dump], 5, Vec::new());
    assert_eq!(create_get_interface_message(28).to_bytes().unwrap(), serialized(&theirs));
}

#[test]
fn trigger_scan_request_is_what_neli_serializes() {
    if !host_is_little_endian() {
        return;
    }
    let attrs = vec![
        Nlattr::new(false, true, 3u16, 7u32).unwrap(),
        Nlattr::new(false, true, 158u16, 4u32).unwrap(),
    ];
    let theirs = neli_request(28, &[NlmF::Request, NlmF::Ack], 33, attrs);
    assert_eq!(create_trigger_scan_message(28, 7).unwrap().to_bytes().unwrap(), serialized(&theirs));
}

#[test]
fn get_scan_request_is_what_neli_serializes() {
    if !host_is_little_endian() {
        return;
    }
    let attrs = vec![Nlattr::new(false, true, 3u16, 0xDEADBEEFu32).unwrap()];
    let theirs = neli_request(0x7FFF, &[NlmF::Request, NlmF::Dump], 32, attrs);
    assert_eq!(
        create_get_scan_message(0x7FFF, 0xDEADBEEF).to_bytes().unwrap(),
        serialized(&theirs)
    );
}

#[test]
fn neli_decodes_what_this_crate_encodes() {
    if !host_is_little_endian() {
        return;
    }
    let bytes = create_trigger_scan_message(28, 7).unwrap().to_bytes().unwrap();
    let mut cursor = std::io::Cursor::new(&bytes[..]);
    let message = Message::from_bytes(&mut cursor).unwrap();
    assert_eq!(message.nl_type, 28);
    let payload = message.get_payload().unwrap();
    assert_eq!(payload.cmd, 33);
    let handle = payload.get_attr_handle();
    assert_eq!(handle.get_attr_payload_as::<u32>(3).unwrap(), 7);
    assert_eq!(handle.get_attr_payload_as::<u32>(158).unwrap(), 4);
}

#[test]
fn this_crate_decodes_what_neli_encodes() {
    if !host_is_little_endian() {
        return;
    }
    let attrs = vec![
        Nlattr::new(false, false, 3u16, 9u32).unwrap(),
        Nlattr::new(false, false, 4u16, "wlan0").unwrap(),
    ];
    let bytes = serialized(&neli_request(28, &[NlmF::Multi], 7, attrs));
    let messages = parse_messages(&bytes).unwrap();
    assert_eq!(messages.len(), 1);
    assert_eq!(messages[0].nl_type, 28);
    assert_eq!(messages[0].flags, 2);
    let body = GenlMessage::parse(&messages[0].payload).unwrap();
    assert_eq!(body.cmd, 7);
    assert_eq!(get_attr_u32(&body.attrs, 3), Ok(9));
    assert_eq!(
        wifi_connect::nl80211::attr::get_attr_text(&body.attrs, 4),
        Ok("wlan0".to_string())
    );
}
