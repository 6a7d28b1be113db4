use wifi_connect::network::Station;
use wifi_connect::nl80211::attr::{encode_attrs, Attribute};
use wifi_connect::nl80211::error::{DecodeError, ScanError};
use wifi_connect::nl80211::message::{GenlMessage, NlMessage};
use wifi_connect::nl80211::dump::{find_done, recv_all};
use wifi_connect::nl80211::scan::{
    collect_interfaces, collect_stations, find_interface, get_interfaces, get_payload,
    get_scan_results, has_scan_results, interface_from_message, read_acknowledgement,
    station_from_message,
};

fn attribute(kind: u16, payload: &[u8]) -> Attribute {
    Attribute::new(false, false, kind, payload.to_vec()).unwrap()
}

fn encoded(attrs: &Vec<Attribute>) -> Vec<u8> {
    let mut out = Vec::new();
    encode_attrs(attrs, &mut out).unwrap();
    out
}

fn ordinary(cmd: u8, attrs: Vec<Attribute>) -> NlMessage {
    let payload = GenlMessage { cmd, version: 1, attrs }.to_bytes().unwrap();
    NlMessage { nl_type: 28, flags: 2, seq: 1, pid: 0, payload }
}

fn done() -> NlMessage {
    NlMessage { nl_type: 3, flags: 2, seq: 1, pid: 0, payload: vec![0, 0, 0, 0] }
}

fn report(code: i32) -> NlMessage {
    let mut payload = code.to_le_bytes().to_vec();
    payload.extend_from_slice(&[0; 16]);
    NlMessage { nl_type: 2, flags: 0, seq: 1, pid: 0, payload }
}

fn elements(ssid: &[u8]) -> Vec<u8> {
    let mut bytes = vec![1, 2, 0x82, 0x84, 0, ssid.len() as u8];
    bytes.extend_from_slice(ssid);
    bytes.extend_from_slice(&[3, 1, 6]);
    bytes
}

fn bss(signal: Option<i32>, ies: Option<Vec<u8>>) -> NlMessage {
    let mut nested = vec![attribute(1, &[1, 2, 3, 4, 5, 6]), attribute(2, &2412u32.to_le_bytes())];
    if let Some(signal) = signal {
        nested.push(attribute(7, &signal.to_le_bytes()));
    }
    if let Some(ies) = ies {
        nested.push(attribute(6, &ies));
    }
    let attrs = vec![
        attribute(3, &3u32.to_le_bytes()),
        Attribute::new(true, false, 47, encoded(&nested)).unwrap(),
    ];
    ordinary(34, attrs)
}

fn station_message(ssid: &str, signal: i32) -> NlMessage {
    bss(Some(signal), Some(elements(ssid.as_bytes())))
}

fn interface_message(name: &str, index: u32) -> NlMessage {
    let mut text = name.as_bytes().to_vec();
    text.push(0);
    ordinary(
        7,
        vec![
            attribute(3, &index.to_le_bytes()),
            attribute(4, &text),
            attribute(1, &0u32.to_le_bytes()),
            attribute(5, &2u32.to_le_bytes()),
            attribute(153, &1u64.to_le_bytes()),
            attribute(6, &[2, 0, 0, 0, 0, index as u8]),
        ],
    )
}

fn station(ssid: &str, quality: u8) -> Station {
    Station::new(ssid.to_string(), quality)
}

#[test]
fn station_is_read_from_a_scan_result() {
    assert_eq!(station_from_message(&station_message("MyNet", -5500)), Some(station("MyNet", 75)));
    assert_eq!(station_from_message(&station_message("x", -2000)), Some(station("x", 100)));
    assert_eq!(station_from_message(&station_message("x", -12000)), Some(station("x", 0)));
}

#[test]
fn scan_result_without_signal_or_name_gives_no_station() {
    assert_eq!(station_from_message(&bss(None, Some(elements(b"MyNet")))), None);
    assert_eq!(station_from_message(&bss(Some(-5000), None)), None);
    assert_eq!(station_from_message(&station_message("", -5000)), None);
    assert_eq!(station_from_message(&bss(Some(-5000), Some(elements(&[0xFF, 0xFE])))), None);
    assert_eq!(station_from_message(&bss(Some(-5000), Some(vec![1, 2, 0x82]))), None);
    assert_eq!(station_from_message(&bss(Some(-5000), Some(Vec::new()))), None);
}

#[test]
fn malformed_scan_result_gives_no_station() {
    let wide_signal = ordinary(
        34,
        vec![Attribute::new(
            true,
            false,
            47,
            encoded(&vec![attribute(7, &[1, 2, 3, 4, 5, 6, 7, 8]), attribute(6, &elements(b"a"))]),
        )
        .unwrap()],
    );
    assert_eq!(station_from_message(&wide_signal), None);
    let broken_tree = ordinary(34, vec![attribute(47, &[200, 0, 7, 0, 1])]);
    assert_eq!(station_from_message(&broken_tree), None);
    let no_bss = ordinary(34, vec![attribute(3, &[3, 0, 0, 0])]);
    assert_eq!(station_from_message(&no_bss), None);
    let short = NlMessage { nl_type: 28, flags: 0, seq: 0, pid: 0, payload: vec![34, 1] };
    assert_eq!(station_from_message(&short), None);
    assert_eq!(station_from_message(&done()), None);
    assert_eq!(station_from_message(&report(0)), None);
}

#[test]
fn payload_is_decoded_for_ordinary_messages_only() {
    let message = ordinary(34, vec![attribute(3, &[3, 0, 0, 0])]);
    let body = get_payload(&message).unwrap();
    assert_eq!(body.cmd, 34);
    assert_eq!(body.attrs, vec![attribute(3, &[3, 0, 0, 0])]);
    assert_eq!(get_payload(&done()), None);
    assert_eq!(get_payload(&report(-1)), None);
}

#[test]
fn dump_is_drained_up_to_its_end() {
    let batches = vec![
        vec![station_message("one", -5000), station_message("two", -6000), done()],
        vec![station_message("three", -7000), done()],
    ];
    let dump = recv_all(&batches, station_from_message);
    assert_eq!(dump.items, vec![station("one", 83), station("two", 67)]);
    assert_eq!(dump.batches_read, 1);
    assert!(dump.complete);
}

#[test]
fn dump_spans_batches_and_stops_inside_a_batch() {
    let batches = vec![
        vec![station_message("one", -5000)],
        Vec::new(),
        vec![station_message("", -5000), station_message("two", -6000)],
        vec![station_message("three", -7000), done(), station_message("four", -4000)],
        vec![station_message("five", -4000)],
    ];
    let dump = recv_all(&batches, station_from_message);
    assert_eq!(dump.items, vec![station("one", 83), station("two", 67), station("three", 50)]);
    assert_eq!(dump.batches_read, 4);
    assert!(dump.complete);
    assert_eq!(
        get_scan_results(&batches),
        vec![station("one", 83), station("two", 67), station("three", 50)]
    );
}

#[test]
fn dump_without_an_end_is_incomplete() {
    let batches = vec![vec![station_message("one", -5000)], vec![station_message("two", -6000)]];
    let dump = recv_all(&batches, station_from_message);
    assert_eq!(dump.items.len(), 2);
    assert_eq!(dump.batches_read, 2);
    assert!(!dump.complete);
    let nothing: Vec<Vec<NlMessage>> = Vec::new();
    let dump = recv_all(&nothing, station_from_message);
    assert!(dump.items.is_empty());
    assert_eq!(dump.batches_read, 0);
    assert!(!dump.complete);
}

#[test]
fn dump_is_drained_with_any_extractor() {
    let batches = vec![
        vec![station_message("one", -5000), report(0)],
        vec![interface_message("wlan0", 3), done()],
        vec![done()],
    ];
    let types = recv_all(&batches, |m: &NlMessage| Some(m.nl_type));
    assert_eq!(types.items, vec![28, 2, 28]);
    assert_eq!(types.batches_read, 2);
    let commands = recv_all(&batches, |m: &NlMessage| get_payload(m).map(|body| body.cmd));
    assert_eq!(commands.items, vec![34, 7]);
    let none = recv_all(&batches, |_m: &NlMessage| None::<u8>);
    assert!(none.items.is_empty());
    assert!(none.complete);
}

#[test]
fn end_of_a_dump_is_found() {
    assert_eq!(find_done(&vec![station_message("a", -5000), done(), done()]), 1);
    assert_eq!(find_done(&vec![done()]), 0);
    assert_eq!(find_done(&vec![station_message("a", -5000), report(0)]), 2);
    assert_eq!(find_done(&Vec::new()), 0);
}

#[test]
fn stations_are_collected_from_the_front_of_a_batch() {
    let batch = vec![
        station_message("one", -5000),
        bss(None, None),
        station_message("two", -6000),
        station_message("three", -7000),
    ];
    let mut stations = vec![station("zero", 1)];
    collect_stations(&mut stations, &batch, 3);
    assert_eq!(stations, vec![station("zero", 1), station("one", 83), station("two", 67)]);
    collect_stations(&mut stations, &batch, 0);
    assert_eq!(stations.len(), 3);
}

#[test]
fn interfaces_are_read_from_their_dump() {
    let batches = vec![
        vec![interface_message("wlan0", 3)],
        vec![interface_message("wlan1", 4), done(), interface_message("wlan2", 5)],
    ];
    let interfaces = get_interfaces(&batches).unwrap();
    assert_eq!(interfaces.len(), 2);
    assert_eq!(interfaces[0].name, "wlan0");
    assert_eq!(interfaces[0].index, 3);
    assert_eq!(interfaces[1].name, "wlan1");
    assert_eq!(interfaces[1].index, 4);
    assert_eq!(interfaces[1].mac_address.as_bytes(), &[2, 0, 0, 0, 0, 4]);
}

#[test]
fn interface_entry_without_a_name_is_passed_over() {
    let unnamed = ordinary(
        7,
        vec![
            attribute(1, &0u32.to_le_bytes()),
            attribute(5, &10u32.to_le_bytes()),
            attribute(153, &2u64.to_le_bytes()),
            attribute(6, &[2, 0, 0, 0, 0, 9]),
        ],
    );
    let batches = vec![vec![unnamed, report(0), interface_message("wlan0", 3), done()]];
    let interfaces = get_interfaces(&batches).unwrap();
    assert_eq!(interfaces.len(), 1);
    assert_eq!(interfaces[0].name, "wlan0");
}

#[test]
fn malformed_interface_entry_is_an_error() {
    let malformed = ordinary(
        7,
        vec![
            attribute(3, &[3, 0]),
            attribute(4, b"wlan9\0"),
            attribute(1, &0u32.to_le_bytes()),
            attribute(5, &2u32.to_le_bytes()),
            attribute(153, &1u64.to_le_bytes()),
            attribute(6, &[2, 0, 0, 0, 0, 9]),
        ],
    );
    let batches =
        vec![vec![interface_message("wlan0", 3)], vec![malformed.clone(), done()], vec![done()]];
    assert_eq!(get_interfaces(&batches).err(), Some(DecodeError::WrongWidth));
    let behind_the_end = vec![vec![interface_message("wlan0", 3), done(), malformed.clone()]];
    assert_eq!(get_interfaces(&behind_the_end).map(|i| i.len()), Ok(1));
    let mut interfaces = get_interfaces(&behind_the_end).unwrap();
    assert_eq!(
        collect_interfaces(&mut interfaces, &vec![interface_message("wlan5", 5), malformed], 2),
        Err(DecodeError::WrongWidth)
    );
    assert_eq!(interfaces.len(), 1);
    assert_eq!(
        collect_interfaces(&mut interfaces, &vec![interface_message("wlan5", 5), done()], 1),
        Ok(())
    );
    assert_eq!(interfaces.len(), 2);
    assert_eq!(interfaces[1].name, "wlan5");
    match interface_from_message(&done()) {
        None => {}
        Some(_) => panic!("the end of a dump is no interface"),
    }
    let broken_tree = ordinary(7, vec![attribute(3, &[3, 0, 0, 0])]);
    let broken_tree = NlMessage { payload: broken_tree.payload[..9].to_vec(), ..broken_tree };
    assert_eq!(
        get_interfaces(&vec![vec![broken_tree.clone(), done()]]).err(),
        Some(DecodeError::BadLength)
    );
    let headless = NlMessage { payload: vec![7, 1], ..broken_tree };
    assert_eq!(
        get_interfaces(&vec![vec![headless, done()]]).err(),
        Some(DecodeError::Truncated)
    );
}

#[test]
fn interface_is_found_by_name() {
    let batches = vec![vec![
        interface_message("wlan0", 3),
        interface_message("wlan1", 4),
        interface_message("wlan0", 5),
        done(),
    ]];
    let interfaces = get_interfaces(&batches).unwrap();
    assert_eq!(find_interface(&interfaces, "wlan0"), Some(0));
    assert_eq!(find_interface(&interfaces, "wlan1"), Some(1));
    assert_eq!(find_interface(&interfaces, "wlan"), None);
    assert_eq!(find_interface(&interfaces, "wlan00"), None);
    assert_eq!(find_interface(&Vec::new(), "wlan0"), None);
}

#[test]
fn announcement_of_scan_results_is_recognised() {
    let new_results = ordinary(34, vec![attribute(3, &[3, 0, 0, 0])]);
    let triggered = ordinary(33, vec![attribute(3, &[3, 0, 0, 0])]);
    let aborted = ordinary(35, Vec::new());
    assert!(has_scan_results(&vec![new_results.clone()]));
    assert!(has_scan_results(&vec![triggered.clone(), new_results.clone()]));
    assert!(!has_scan_results(&vec![triggered, aborted]));
    assert!(!has_scan_results(&Vec::new()));
    assert!(!has_scan_results(&vec![done(), report(0)]));
    let disguised = NlMessage { nl_type: 3, ..new_results.clone() };
    assert!(!has_scan_results(&vec![disguised]));
    let garbled = NlMessage { payload: vec![34, 1, 0, 0, 9], ..new_results };
    assert!(!has_scan_results(&vec![garbled]));
}

#[test]
fn acknowledgement_is_read_from_the_first_report() {
    assert_eq!(read_acknowledgement(&vec![report(0)]), Some(Ok(())));
    assert_eq!(read_acknowledgement(&vec![report(-16)]), Some(Err(ScanError::Protocol(-16))));
    assert_eq!(
        read_acknowledgement(&vec![station_message("a", -5000), report(-1), report(0)]),
        Some(Err(ScanError::Protocol(-1)))
    );
    assert_eq!(read_acknowledgement(&vec![station_message("a", -5000), done()]), None);
    assert_eq!(read_acknowledgement(&Vec::new()), None);
    let short = NlMessage { nl_type: 2, flags: 0, seq: 0, pid: 0, payload: vec![0, 0] };
    assert_eq!(
        read_acknowledgement(&vec![short]),
        Some(Err(ScanError::Decode(DecodeError::Truncated)))
    );
}
