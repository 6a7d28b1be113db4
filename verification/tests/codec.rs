use wifi_connect::nl80211::attr::{
    attributes_fit, encode_attrs, get_attr_bytes, get_attr_i32, get_attr_text, get_attr_u32, get_attr_u64,
    get_attribute, get_nested_attributes, parse_attrs, Attribute,
};
use wifi_connect::nl80211::error::{DecodeError, EncodeError};
use wifi_connect::nl80211::message::{parse_messages, GenlMessage, NlMessage};
use wifi_connect::nl80211::scan::{
    create_get_interface_message, create_get_scan_message, create_trigger_scan_message,
};
use wifi_connect::nl80211::wire::{
    push_padding, push_u16, push_u32, read_i32, read_u32, read_u64, stride_within, u16_at,
    u32_at,
};

fn attribute(kind: u16, payload: &[u8]) -> Attribute {
    Attribute::new(false, false, kind, payload.to_vec()).unwrap()
}

fn encoded(attrs: &Vec<Attribute>) -> Vec<u8> {
    let mut out = Vec::new();
    encode_attrs(attrs, &mut out).unwrap();
    out
}

#[test]
fn scalars_are_little_endian() {
    let mut out = Vec::new();
    push_u16(&mut out, 0x1234);
    push_u32(&mut out, 0x89ABCDEF);
    assert_eq!(out, vec![0x34, 0x12, 0xEF, 0xCD, 0xAB, 0x89]);
    assert_eq!(u16_at(&out, 0), 0x1234);
    assert_eq!(u32_at(&out, 2), 0x89ABCDEF);
    assert_eq!(u16_at(&out, 1), 0xEF12);
}

#[test]
fn scalar_of_exact_width_is_read() {
    assert_eq!(read_u32(&[7, 0, 0, 0]), Ok(7));
    assert_eq!(read_u32(&[0xFF, 0xFF, 0xFF, 0xFF]), Ok(u32::MAX));
    assert_eq!(read_i32(&[0xFF, 0xFF, 0xFF, 0xFF]), Ok(-1));
    assert_eq!(read_i32(&[0x00, 0x00, 0x00, 0x80]), Ok(i32::MIN));
    assert_eq!(read_i32(&[0xFF, 0xFF, 0xFF, 0x7F]), Ok(i32::MAX));
    assert_eq!(read_i32(&(-4500i32).to_le_bytes()), Ok(-4500));
    assert_eq!(read_u64(&[1, 2, 3, 4, 5, 6, 7, 8]), Ok(0x0807060504030201));
    assert_eq!(read_u64(&u64::MAX.to_le_bytes()), Ok(u64::MAX));
}

#[test]
fn scalar_of_wrong_width_is_an_error() {
    assert_eq!(read_u32(&[7, 0, 0]), Err(DecodeError::WrongWidth));
    assert_eq!(read_u32(&[7, 0, 0, 0, 0]), Err(DecodeError::WrongWidth));
    assert_eq!(read_u32(&[]), Err(DecodeError::WrongWidth));
    assert_eq!(read_i32(&[7, 0, 0, 0, 0, 0, 0, 0]), Err(DecodeError::WrongWidth));
    assert_eq!(read_u64(&[7, 0, 0, 0]), Err(DecodeError::WrongWidth));
    assert_eq!(attribute(1, &[1, 2]).get_u32(), Err(DecodeError::WrongWidth));
    assert_eq!(attribute(1, &[1, 2, 3, 4, 5]).get_i32(), Err(DecodeError::WrongWidth));
    assert_eq!(attribute(1, &[1, 2, 3, 4]).get_u64(), Err(DecodeError::WrongWidth));
}

#[test]
fn padding_fills_a_record_up_to_a_multiple_of_four() {
    let mut out = vec![9];
    push_padding(&mut out, 5);
    assert_eq!(out, vec![9, 0, 0, 0]);
    push_padding(&mut out, 8);
    assert_eq!(out, vec![9, 0, 0, 0]);
    push_padding(&mut out, 7);
    assert_eq!(out, vec![9, 0, 0, 0, 0]);
    push_padding(&mut out, 0);
    assert_eq!(out.len(), 5);
    push_padding(&mut out, usize::MAX);
    assert_eq!(out.len(), 6);
}

#[test]
fn stride_is_the_padded_length_inside_the_buffer() {
    assert_eq!(stride_within(4, 20), 4);
    assert_eq!(stride_within(5, 20), 8);
    assert_eq!(stride_within(7, 8), 8);
    assert_eq!(stride_within(7, 7), 7);
    assert_eq!(stride_within(6, 7), 7);
    assert_eq!(stride_within(0, 0), 0);
    assert_eq!(stride_within(9, 7), 7);
    assert_eq!(stride_within(usize::MAX, usize::MAX), usize::MAX);
}

#[test]
fn attribute_is_framed_with_length_type_payload_and_padding() {
    let attrs = vec![attribute(3, &[7, 0, 0, 0]), attribute(4, b"wlan0\0")];
    assert_eq!(
        encoded(&attrs),
        vec![
            8, 0, 3, 0, 7, 0, 0, 0, 10, 0, 4, 0, b'w', b'l', b'a', b'n', b'0', 0, 0, 0
        ]
    );
}

#[test]
fn attribute_flags_go_into_the_type_field() {
    let nested = Attribute::new(true, false, 47, Vec::new()).unwrap();
    assert_eq!(nested.nla_type, 0x802F);
    assert_eq!(nested.kind(), 47);
    assert!(nested.is_nested());
    assert!(!nested.is_network_order());
    let ordered = Attribute::new(false, true, 3, Vec::new()).unwrap();
    assert_eq!(ordered.nla_type, 0x4003);
    assert_eq!(ordered.kind(), 3);
    assert!(!ordered.is_nested());
    assert!(ordered.is_network_order());
    let both = Attribute::new(true, true, 0x3FFF, Vec::new()).unwrap();
    assert_eq!(both.nla_type, 0xFFFF);
    assert_eq!(both.kind(), 0x3FFF);
}

#[test]
fn attribute_that_does_not_fit_is_refused() {
    assert_eq!(Attribute::new(false, false, 0x4000, Vec::new()), Err(EncodeError::TagTooLarge));
    assert_eq!(
        Attribute::new(false, false, 1, vec![0; 65532]),
        Err(EncodeError::PayloadTooLong)
    );
    assert!(Attribute::new(false, false, 1, vec![0; 65531]).is_ok());
    assert_eq!(Attribute::with_u32(false, false, 0xFFFF, 1), Err(EncodeError::TagTooLarge));
    let oversized = Attribute { nla_type: 1, payload: vec![0; 70000] };
    let mut out = vec![1, 2, 3];
    assert_eq!(
        encode_attrs(&vec![attribute(1, &[1]), oversized.clone()], &mut out),
        Err(EncodeError::PayloadTooLong)
    );
    assert_eq!(out, vec![1, 2, 3]);
    assert!(!attributes_fit(&vec![attribute(1, &[1]), oversized.clone()]));
    assert!(attributes_fit(&vec![attribute(1, &[1])]));
    let message = GenlMessage { cmd: 1, version: 1, attrs: vec![oversized] };
    assert_eq!(message.to_bytes(), Err(EncodeError::PayloadTooLong));
}

#[test]
fn attributes_are_appended_wherever_the_buffer_ends() {
    let mut out = vec![0xEE];
    encode_attrs(&vec![attribute(2, &[1])], &mut out).unwrap();
    assert_eq!(out, vec![0xEE, 5, 0, 2, 0, 1, 0, 0, 0]);
}

#[test]
fn attributes_survive_encoding_and_decoding() {
    let attrs = vec![
        attribute(1, &[]),
        attribute(2, &[1]),
        attribute(3, &[1, 2]),
        attribute(4, &[1, 2, 3]),
        attribute(5, &[1, 2, 3, 4]),
        Attribute::new(true, true, 6, vec![9; 300]).unwrap(),
    ];
    assert_eq!(parse_attrs(&encoded(&attrs)), Ok(attrs));
    assert_eq!(parse_attrs(&[]), Ok(Vec::new()));
}

#[test]
fn last_attribute_may_lack_its_padding() {
    let bytes = [5, 0, 9, 0, 0xAA];
    assert_eq!(parse_attrs(&bytes), Ok(vec![attribute(9, &[0xAA])]));
}

#[test]
fn malformed_attributes_are_errors() {
    assert_eq!(parse_attrs(&[8, 0, 3]), Err(DecodeError::Truncated));
    assert_eq!(parse_attrs(&[3, 0, 3, 0]), Err(DecodeError::BadLength));
    assert_eq!(parse_attrs(&[9, 0, 3, 0, 1, 2, 3, 4]), Err(DecodeError::BadLength));
    assert_eq!(parse_attrs(&[4, 0, 3, 0, 1]), Err(DecodeError::Truncated));
    assert_eq!(attribute(47, &[8, 0, 3]).get_nested(), Err(DecodeError::Truncated));
}

#[test]
fn lookup_takes_the_last_attribute_of_a_tag() {
    let attrs = vec![attribute(3, &[1, 0, 0, 0]), attribute(4, &[9]), attribute(3, &[2, 0, 0, 0])];
    assert_eq!(get_attribute(&attrs, 3), Some(&attrs[2]));
    assert_eq!(get_attribute(&attrs, 4), Some(&attrs[1]));
    assert_eq!(get_attribute(&attrs, 5), None);
    assert_eq!(get_attr_u32(&attrs, 3), Ok(2));
}

#[test]
fn lookup_ignores_the_flags_of_the_type_field() {
    let attrs = vec![Attribute::new(true, true, 3, vec![5, 0, 0, 0]).unwrap()];
    assert_eq!(get_attr_u32(&attrs, 3), Ok(5));
    assert_eq!(get_attr_u32(&attrs, 0x4003), Err(DecodeError::MissingAttribute));
}

#[test]
fn typed_lookups_decode_or_fail() {
    let attrs = vec![
        attribute(1, &[7, 0, 0, 0]),
        attribute(2, &(-6000i32).to_le_bytes()),
        attribute(3, &[1, 0, 0, 0, 2, 0, 0, 0]),
        attribute(4, b"wlan0\0"),
        attribute(5, &[0xFF, 0xFE, 0]),
        attribute(6, &[]),
        attribute(7, &encoded(&vec![attribute(1, &[9])])),
    ];
    assert_eq!(get_attr_u32(&attrs, 1), Ok(7));
    assert_eq!(get_attr_i32(&attrs, 2), Ok(-6000));
    assert_eq!(get_attr_u64(&attrs, 3), Ok(0x0000000200000001));
    assert_eq!(get_attr_text(&attrs, 4), Ok("wlan0".to_string()));
    assert_eq!(get_attr_text(&attrs, 5), Err(DecodeError::InvalidText));
    assert_eq!(get_attr_text(&attrs, 6), Err(DecodeError::InvalidText));
    assert_eq!(get_attr_bytes(&attrs, 6), Ok(&Vec::new()));
    assert_eq!(get_nested_attributes(&attrs, 7), Ok(vec![attribute(1, &[9])]));
    assert_eq!(get_attr_u32(&attrs, 3), Err(DecodeError::WrongWidth));
    assert_eq!(get_attr_u64(&attrs, 1), Err(DecodeError::WrongWidth));
    assert_eq!(get_attr_u32(&attrs, 99), Err(DecodeError::MissingAttribute));
    assert_eq!(get_attr_i32(&attrs, 99), Err(DecodeError::MissingAttribute));
    assert_eq!(get_attr_u64(&attrs, 99), Err(DecodeError::MissingAttribute));
    assert_eq!(get_attr_text(&attrs, 99), Err(DecodeError::MissingAttribute));
    assert_eq!(get_attr_bytes(&attrs, 99), Err(DecodeError::MissingAttribute));
    assert_eq!(get_nested_attributes(&attrs, 99), Err(DecodeError::MissingAttribute));
}

#[test]
fn text_ends_before_its_last_byte() {
    assert_eq!(attribute(4, b"ab\0").get_text(), Ok("ab".to_string()));
    assert_eq!(attribute(4, b"\0").get_text(), Ok(String::new()));
    assert_eq!(attribute(4, b"abc").get_text(), Ok("ab".to_string()));
}

#[test]
fn generic_netlink_message_survives_encoding_and_decoding() {
    let message = GenlMessage { cmd: 34, version: 1, attrs: vec![attribute(3, &[7, 0, 0, 0])] };
    let bytes = message.to_bytes().unwrap();
    assert_eq!(bytes, vec![34, 1, 0, 0, 8, 0, 3, 0, 7, 0, 0, 0]);
    assert_eq!(GenlMessage::parse(&bytes), Ok(message));
    assert_eq!(GenlMessage::parse(&[34, 1, 0]), Err(DecodeError::Truncated));
    assert_eq!(GenlMessage::parse(&[34, 1, 0, 0, 1]), Err(DecodeError::Truncated));
    assert_eq!(
        GenlMessage::parse(&[34, 1, 0xAA, 0xBB]),
        Ok(GenlMessage { cmd: 34, version: 1, attrs: Vec::new() })
    );
}

#[test]
fn netlink_messages_survive_encoding_and_decoding() {
    let first = NlMessage { nl_type: 28, flags: 5, seq: 11, pid: 22, payload: vec![1, 2, 3] };
    let second = NlMessage { nl_type: 3, flags: 2, seq: 12, pid: 22, payload: Vec::new() };
    let mut bytes = first.to_bytes().unwrap();
    assert_eq!(
        bytes,
        vec![19, 0, 0, 0, 28, 0, 5, 0, 11, 0, 0, 0, 22, 0, 0, 0, 1, 2, 3, 0]
    );
    bytes.extend(second.to_bytes().unwrap());
    assert_eq!(parse_messages(&bytes), Ok(vec![first, second]));
    assert_eq!(parse_messages(&[]), Ok(Vec::new()));
}

#[test]
fn malformed_netlink_messages_are_errors() {
    assert_eq!(parse_messages(&[16, 0, 0, 0, 1, 0]), Err(DecodeError::Truncated));
    let short = [15, 0, 0, 0, 28, 0, 5, 0, 0, 0, 0, 0, 0, 0, 0, 0];
    assert_eq!(parse_messages(&short), Err(DecodeError::BadLength));
    let long = [17, 0, 0, 0, 28, 0, 5, 0, 0, 0, 0, 0, 0, 0, 0, 0];
    assert_eq!(parse_messages(&long), Err(DecodeError::BadLength));
    let huge = [0xFF, 0xFF, 0xFF, 0xFF, 28, 0, 5, 0, 0, 0, 0, 0, 0, 0, 0, 0];
    assert_eq!(parse_messages(&huge), Err(DecodeError::BadLength));
}

#[test]
fn error_code_is_read_from_a_report() {
    let ack = NlMessage { nl_type: 2, flags: 0, seq: 0, pid: 0, payload: vec![0; 20] };
    assert!(ack.is_error());
    assert!(!ack.is_done());
    assert_eq!(ack.get_error_code(), Ok(0));
    let mut payload = (-16i32).to_le_bytes().to_vec();
    payload.extend_from_slice(&[0; 16]);
    let busy = NlMessage { nl_type: 2, flags: 0, seq: 0, pid: 0, payload };
    assert_eq!(busy.get_error_code(), Ok(-16));
    let short = NlMessage { nl_type: 2, flags: 0, seq: 0, pid: 0, payload: vec![0; 3] };
    assert_eq!(short.get_error_code(), Err(DecodeError::Truncated));
    let done = NlMessage { nl_type: 3, flags: 0, seq: 0, pid: 0, payload: Vec::new() };
    assert!(done.is_done());
    assert!(!done.is_error());
}

#[test]
fn get_interface_request_is_a_dump_without_attributes() {
    let message = create_get_interface_message(28);
    assert_eq!(
        message,
        NlMessage { nl_type: 28, flags: 0x301, seq: 0, pid: 0, payload: vec![5, 1, 0, 0] }
    );
    assert_eq!(
        message.to_bytes().unwrap(),
        vec![20, 0, 0, 0, 28, 0, 1, 3, 0, 0, 0, 0, 0, 0, 0, 0, 5, 1, 0, 0]
    );
}

#[test]
fn trigger_scan_request_names_the_interface_and_the_scan_flags() {
    let message = create_trigger_scan_message(28, 7).unwrap();
    assert_eq!(message.nl_type, 28);
    assert_eq!(message.flags, 5);
    assert_eq!(
        message.to_bytes().unwrap(),
        vec![
            36, 0, 0, 0, 28, 0, 5, 0, 0, 0, 0, 0, 0, 0, 0, 0, 33, 1, 0, 0, 8, 0, 3, 0x40, 7, 0,
            0, 0, 8, 0, 0x9E, 0x40, 4, 0, 0, 0
        ]
    );
}

#[test]
fn get_scan_request_is_a_dump_for_the_interface() {
    let message = create_get_scan_message(0x1234, 0x01020304);
    assert_eq!(message.flags, 0x301);
    assert_eq!(
        message.to_bytes().unwrap(),
        vec![
            28, 0, 0, 0, 0x34, 0x12, 1, 3, 0, 0, 0, 0, 0, 0, 0, 0, 32, 1, 0, 0, 8, 0, 3, 0x40,
            4, 3, 2, 1
        ]
    );
}

#[test]
fn interface_index_survives_the_request() {
    let bytes = create_get_scan_message(28, 7).to_bytes().unwrap();
    let messages = parse_messages(&bytes).unwrap();
    assert_eq!(messages.len(), 1);
    let body = GenlMessage::parse(&messages[0].payload).unwrap();
    assert_eq!(body.cmd, 32);
    assert_eq!(get_attr_u32(&body.attrs, 3), Ok(7));
    let bytes = create_trigger_scan_message(28, u32::MAX).unwrap().to_bytes().unwrap();
    let messages = parse_messages(&bytes).unwrap();
    let body = GenlMessage::parse(&messages[0].payload).unwrap();
    assert_eq!(get_attr_u32(&body.attrs, 3), Ok(u32::MAX));
    assert_eq!(get_attr_u32(&body.attrs, 158), Ok(4));
}
