use wifi_connect::error::ErrorChain;
use wifi_connect::network::{Command, CommandResponse, Stop};
use wifi_connect::nl80211::error::{DecodeError, EncodeError, ScanError};
use wifi_connect::opts::{Opts, DEFAULT_GATEWAY, DEFAULT_SSID};
use wifi_connect::order::{str_eq, str_lt};
use wifi_connect::text::utf8_to_string;
use wifi_connect::web::{
    action_name, receive_network_initialized, receive_network_thread_response,
    to_http_error_response, AppErrors, AppResponse,
};

fn chain(messages: &[&str]) -> ErrorChain {
    ErrorChain { messages: messages.iter().map(|m| m.to_string()).collect() }
}

#[test]
fn commands_have_their_action_names() {
    assert_eq!(action_name(&Command::CheckConnectivity), "check connectivity");
    assert_eq!(action_name(&Command::ListConnections), "list actions");
    assert_eq!(action_name(&Command::ListWiFiNetworks), "list WiFi networks");
    assert_eq!(action_name(&Command::Stop), "stop");
}

#[test]
fn error_chain_grows_at_the_front() {
    let error = ErrorChain::new("cause".to_string());
    assert_eq!(error.messages, vec!["cause"]);
    let wrapped = error.context("effect".to_string()).context("outcome".to_string());
    assert_eq!(wrapped.messages, vec!["outcome", "effect", "cause"]);
}

#[test]
fn answer_of_the_network_side_is_passed_on() {
    let received = Ok(Ok(CommandResponse::Stop(Stop::new("ok"))));
    match receive_network_thread_response(received, "stop") {
        Ok(CommandResponse::Stop(stop)) => assert_eq!(stop.stop, "ok"),
        other => panic!("unexpected {:?}", other),
    }
}

#[test]
fn error_of_the_network_side_is_the_failure_of_the_action() {
    let received = Ok(Err(chain(&["Failed to execute check connectivity", "timed out"])));
    let error = receive_network_thread_response(received, "check connectivity").unwrap_err();
    assert_eq!(
        error.messages,
        vec!["Failed to check connectivity", "Failed to execute check connectivity", "timed out"]
    );
}

#[test]
fn answer_that_is_not_received_is_an_error() {
    let received = Err(chain(&["channel closed"]));
    let error = receive_network_thread_response(received, "list WiFi networks").unwrap_err();
    assert_eq!(
        error.messages,
        vec![
            "Failed to list WiFi networks",
            "Failed to receive network thread response",
            "channel closed"
        ]
    );
}

#[test]
fn report_of_the_network_side_coming_up_is_passed_on() {
    assert!(receive_network_initialized(Ok(Ok(()))).is_ok());
    let error = receive_network_initialized(Ok(Err(chain(&["no device"])))).unwrap_err();
    assert_eq!(error.messages, vec!["Failed to initialize network", "no device"]);
    let error = receive_network_initialized(Err(chain(&["channel closed"]))).unwrap_err();
    assert_eq!(
        error.messages,
        vec![
            "Failed to initialize network",
            "Failed to receive network initialization response",
            "channel closed"
        ]
    );
}

#[test]
fn outcome_of_a_request_is_an_answer_or_an_error() {
    match AppResponse::from(Ok(CommandResponse::Stop(Stop::new("ok")))) {
        AppResponse::Network(CommandResponse::Stop(stop)) => assert_eq!(stop.stop, "ok"),
        other => panic!("unexpected {:?}", other),
    }
    match AppResponse::from(Err(chain(&["a", "b"]))) {
        AppResponse::Error(error) => assert_eq!(error.messages, vec!["a", "b"]),
        other => panic!("unexpected {:?}", other),
    }
}

#[test]
fn error_response_lists_the_messages() {
    let body = to_http_error_response(chain(&["Failed to scan for networks", "Interface not found"]));
    assert_eq!(body.errors, vec!["Failed to scan for networks", "Interface not found"]);
    assert_eq!(AppErrors::new(vec!["x".to_string()]).errors, vec!["x"]);
}

#[test]
fn errors_have_their_messages() {
    assert_eq!(DecodeError::Truncated.message(), "Buffer ends inside a header");
    assert_eq!(DecodeError::BadLength.message(), "Length field out of bounds");
    assert_eq!(DecodeError::WrongWidth.message(), "Payload of wrong width");
    assert_eq!(DecodeError::InvalidText.message(), "Payload is not text");
    assert_eq!(DecodeError::MissingAttribute.message(), "Attribute is missing");
    assert_eq!(EncodeError::TagTooLarge.message(), "Type tag too large");
    assert_eq!(EncodeError::PayloadTooLong.message(), "Payload too long");
    assert_eq!(ScanError::Transport.message(), "Netlink transport failed");
    assert_eq!(ScanError::InterfaceNotFound.message(), "Interface not found");
    assert_eq!(ScanError::ScanTimeout.message(), "No scan results received");
    assert_eq!(ScanError::Protocol(-16).message(), "Scan request rejected");
    assert_eq!(ScanError::Decode(DecodeError::Truncated).message(), "Malformed response");
    assert_eq!(
        ScanError::Decode(DecodeError::BadLength).chain().messages,
        vec!["Malformed response", "Length field out of bounds"]
    );
    assert_eq!(ScanError::ScanTimeout.chain().messages, vec!["No scan results received"]);
}

#[test]
fn options_default_to_the_portal_name() {
    assert_eq!(DEFAULT_SSID, "WiFiConnect");
    assert_eq!(DEFAULT_GATEWAY, "192.168.42.1");
    let opts = Opts::new(None, None);
    assert_eq!(opts.ssid, "WiFiConnect");
    assert_eq!(opts.interface, None);
    let opts = Opts::new(Some("Mine".to_string()), Some("wlan1".to_string()));
    assert_eq!(opts.ssid, "Mine");
    assert_eq!(opts.interface, Some("wlan1".to_string()));
}

#[test]
fn strings_are_ordered_as_the_standard_library_orders_them() {
    let samples = ["", "a", "A", "ab", "abc", "b", "net", "network", "caf\u{e9}", "cafe", "\u{10348}", "z"];
    for a in samples {
        for b in samples {
            assert_eq!(str_lt(a, b), a < b);
            assert_eq!(str_eq(a, b), a == b);
        }
    }
}

#[test]
fn bytes_that_are_text_become_a_string() {
    assert_eq!(utf8_to_string(b"MyNet"), Some("MyNet".to_string()));
    assert_eq!(utf8_to_string(&[]), Some(String::new()));
    assert_eq!(utf8_to_string(&[0xE2, 0x82, 0xAC]), Some("\u{20ac}".to_string()));
    assert_eq!(utf8_to_string(&[0xE2, 0x82]), None);
    assert_eq!(utf8_to_string(&[0xC0, 0x80]), None);
    assert_eq!(utf8_to_string(&[0xED, 0xA0, 0x80]), None);
}
