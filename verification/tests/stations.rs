use wifi_connect::network::{
    get_nearby_stations, list_wifi_networks, rank_stations, ssid_to_str, AccessPoint,
    CommandResponse, ConnectionDetails, Connectivity, Station, StationError, Stop,
};

fn station(ssid: &str, quality: u8) -> Station {
    Station::new(ssid.to_string(), quality)
}

#[test]
fn duplicates_and_hidden_networks_are_removed_and_the_rest_sorted() {
    let input = vec![station("A", 50), station("B", 80), station("A", 90), station("", 99)];
    assert_eq!(rank_stations(&input), vec![station("A", 90), station("B", 80)]);
}

#[test]
fn equal_qualities_are_sorted_by_descending_name() {
    let input = vec![station("a", 10), station("c", 10), station("b", 10)];
    assert_eq!(rank_stations(&input), vec![station("c", 10), station("b", 10), station("a", 10)]);
}

#[test]
fn a_name_that_extends_another_ranks_above_it() {
    let input = vec![station("net", 10), station("network", 10)];
    assert_eq!(rank_stations(&input), vec![station("network", 10), station("net", 10)]);
}

#[test]
fn names_are_compared_byte_by_byte() {
    let input = vec![station("Z", 1), station("a", 1), station("é", 1)];
    assert_eq!(rank_stations(&input), vec![station("é", 1), station("a", 1), station("Z", 1)]);
}

#[test]
fn no_candidates_give_no_stations() {
    assert_eq!(rank_stations(&Vec::new()), Vec::new());
    assert_eq!(rank_stations(&vec![station("", 1), station("", 2)]), Vec::new());
}

#[test]
fn ranking_agrees_with_sort_reverse_dedup_retain() {
    let names = ["a", "b", "", "net", "b", "zz", "a", "b"];
    let mut seed: u32 = 12345;
    for round in 0..50 {
        let mut input = Vec::new();
        for k in 0..(round % 9) {
            seed = seed.wrapping_mul(1664525).wrapping_add(1013904223);
            let name = names[((seed >> 16) as usize + k) % names.len()];
            input.push(station(name, ((seed >> 8) % 5) as u8 * 20));
        }
        let mut expected = input.clone();
        expected.sort_by_key(|s| (s.quality, s.ssid.clone()));
        expected.reverse();
        let mut seen = std::collections::HashSet::new();
        expected.retain(|s| seen.insert(s.ssid.clone()));
        expected.retain(|s| !s.ssid.is_empty());
        assert_eq!(rank_stations(&input), expected);
    }
}

#[test]
fn ssid_that_is_text_is_read() {
    assert_eq!(ssid_to_str(Some(b"MyNet")), Some("MyNet"));
    assert_eq!(ssid_to_str(Some(b"")), Some(""));
    assert_eq!(ssid_to_str(Some("caf\u{e9}".as_bytes())), Some("caf\u{e9}"));
}

#[test]
fn ssid_that_is_no_text_is_not_read() {
    assert_eq!(ssid_to_str(Some(&[0xFF, 0xFE])), None);
    assert_eq!(ssid_to_str(Some(&[b'a', 0xC3])), None);
    assert_eq!(ssid_to_str(None), None);
}

#[test]
fn access_point_with_a_name_is_a_station() {
    let ap = AccessPoint { ssid: Some(b"Home".to_vec()), strength: 70 };
    assert_eq!(Station::try_from(&ap), Ok(station("Home", 70)));
}

#[test]
fn access_point_without_text_is_no_station() {
    let nameless = AccessPoint { ssid: None, strength: 70 };
    assert_eq!(Station::try_from(&nameless), Err(StationError::SsidNotAString));
    let garbled = AccessPoint { ssid: Some(vec![0x80]), strength: 70 };
    assert_eq!(Station::try_from(&garbled), Err(StationError::SsidNotAString));
}

#[test]
fn nearby_stations_are_ranked() {
    let aps = vec![
        AccessPoint { ssid: Some(b"A".to_vec()), strength: 50 },
        AccessPoint { ssid: Some(vec![0xFF]), strength: 100 },
        AccessPoint { ssid: Some(b"B".to_vec()), strength: 80 },
        AccessPoint { ssid: None, strength: 100 },
        AccessPoint { ssid: Some(b"A".to_vec()), strength: 90 },
        AccessPoint { ssid: Some(Vec::new()), strength: 99 },
    ];
    assert_eq!(get_nearby_stations(&aps), vec![station("A", 90), station("B", 80)]);
}

#[test]
fn station_copy_is_equal() {
    let home = station("Home", 42);
    assert_eq!(home.duplicate(), home);
}

#[test]
fn constructors_keep_their_arguments() {
    assert_eq!(Connectivity::new("full".to_string()).connectivity, "full");
    let details = ConnectionDetails::new("id".to_string(), "uuid".to_string());
    assert_eq!(details.id, "id");
    assert_eq!(details.uuid, "uuid");
    assert_eq!(Stop::new("ok").stop, "ok");
    let made = station("x", 3);
    assert_eq!(made.ssid, "x");
    assert_eq!(made.quality, 3);
}

#[test]
fn list_of_networks_is_wrapped() {
    match list_wifi_networks(vec![station("x", 3)]) {
        CommandResponse::ListWiFiNetworks(stations) => assert_eq!(stations, vec![station("x", 3)]),
        _ => panic!("wrong response"),
    }
}
