//! The pieces of a scan: the three requests, and what is read out of the
//! answers.

use vstd::prelude::*;
use crate::network::{Station, station_views, StationView};
use crate::nl80211::attr::{
    Attribute, AttributeView, get_attr_bytes, get_attr_i32, get_nested_attributes, i32_attribute,
    nested_attributes, NETWORK_ORDER_FLAG, required, type_field, u32_attribute, views,
};
use crate::nl80211::consts::{
    NL80211_ATTR_BSS, NL80211_ATTR_IFINDEX, NL80211_ATTR_SCAN_FLAGS,
    NL80211_BSS_INFORMATION_ELEMENTS, NL80211_BSS_SIGNAL_MBM, NL80211_CMD_GET_INTERFACE,
    NL80211_CMD_GET_SCAN, NL80211_CMD_NEW_SCAN_RESULTS, NL80211_CMD_TRIGGER_SCAN,
    NL80211_SCAN_FLAG_AP, NL80211_VERSION, NLM_F_ACK, NLM_F_DUMP, NLM_F_REQUEST, NLMSG_DONE,
    NLMSG_ERROR,
};
use crate::nl80211::dump::{dump_messages, find_done, outcomes_of, recv_all, somes};
use crate::nl80211::error::{DecodeError, EncodeError, ScanError};
use crate::nl80211::ie::{extract_ssid, ssid_of};
use crate::nl80211::interface::{Interface, interface_of, InterfaceView};
use crate::nl80211::message::{
    error_code, genl_round_trip, GenlMessage, GenlMessageView, message_views, NlMessage,
    NlMessageView, parse_genl,
};
use crate::nl80211::quality::{dbm_level_to_quality, quality_of};
use crate::nl80211::wire::{push_u32, u32_le, u32_round_trip};
use crate::order::str_eq;
use crate::text::{text_of, utf8_to_string};

verus! {

/// An attribute that carries one unsigned 32-bit value, flagged as the
/// requests of this crate flag theirs.
pub open spec fn u32_request_attribute(kind: u16, value: u32) -> AttributeView {
    AttributeView { nla_type: type_field(false, true, kind), payload: u32_le(value) }
}

/// A request to the family `nl_id`: sequence number and port id are left to the
/// transport, the payload is the encoded generic netlink message.
pub open spec fn request(nl_id: u16, flags: u16, body: GenlMessageView) -> NlMessageView {
    NlMessageView { nl_type: nl_id, flags, seq: 0, pid: 0, payload: body.encoded() }
}

/// The request for the list of interfaces: no attributes, answered by a dump.
pub open spec fn get_interface_request(nl_id: u16) -> NlMessageView {
    request(
        nl_id,
        (NLM_F_REQUEST + NLM_F_DUMP) as u16,
        GenlMessageView {
            cmd: NL80211_CMD_GET_INTERFACE,
            version: NL80211_VERSION,
            attrs: Seq::empty(),
        },
    )
}

/// The request to start a scan on an interface, flagged so that an access
/// point may scan too, answered by an acknowledgement.
pub open spec fn trigger_scan_request(nl_id: u16, iface_index: u32) -> NlMessageView {
    request(
        nl_id,
        (NLM_F_REQUEST + NLM_F_ACK) as u16,
        GenlMessageView {
            cmd: NL80211_CMD_TRIGGER_SCAN,
            version: NL80211_VERSION,
            attrs: seq![
                u32_request_attribute(NL80211_ATTR_IFINDEX, iface_index),
                u32_request_attribute(NL80211_ATTR_SCAN_FLAGS, NL80211_SCAN_FLAG_AP),
            ],
        },
    )
}

/// The request for the results of the last scan on an interface, answered by
/// a dump.
pub open spec fn get_scan_request(nl_id: u16, iface_index: u32) -> NlMessageView {
    request(
        nl_id,
        (NLM_F_REQUEST + NLM_F_DUMP) as u16,
        GenlMessageView {
            cmd: NL80211_CMD_GET_SCAN,
            version: NL80211_VERSION,
            attrs: seq![u32_request_attribute(NL80211_ATTR_IFINDEX, iface_index)],
        },
    )
}

/// An attribute of a request that carries one unsigned 32-bit value.
fn request_attribute(kind: u16, value: u32) -> (attr: Attribute)
    requires
        kind < 16384,
    ensures
        attr@ == u32_request_attribute(kind, value),
        attr@.fits(),
{
    let mut payload: Vec<u8> = Vec::new();
    push_u32(&mut payload, value);
    proof {
        u32_round_trip(value);
        assert(payload@ =~= u32_le(value));
    }
    Attribute { nla_type: kind + NETWORK_ORDER_FLAG, payload }
}

/// Frames a generic netlink message, whose attributes all fit, as a request
/// to the family `nl_id`.
fn frame_request(nl_id: u16, flags: u16, body: GenlMessage) -> (message: NlMessage)
    requires
        body@.fits(),
    ensures
        message@ == request(nl_id, flags, body@),
{
    NlMessage { nl_type: nl_id, flags, seq: 0, pid: 0, payload: body.encode() }
}

/// Builds the request for the list of interfaces.
pub fn create_get_interface_message(nl_id: u16) -> (message: NlMessage)
    ensures
        message@ == get_interface_request(nl_id),
{
    let attrs: Vec<Attribute> = Vec::new();
    assert(views(attrs@) =~= Seq::empty());
    let body = GenlMessage { cmd: NL80211_CMD_GET_INTERFACE, version: NL80211_VERSION, attrs };
    frame_request(nl_id, NLM_F_REQUEST + NLM_F_DUMP, body)
}

/// Builds the request to start a scan on the interface of the given index.
pub(crate) fn trigger_scan_message(nl_id: u16, iface_index: u32) -> (message: NlMessage)
    ensures
        message@ == trigger_scan_request(nl_id, iface_index),
{
    let mut attrs: Vec<Attribute> = Vec::new();
    attrs.push(request_attribute(NL80211_ATTR_IFINDEX, iface_index));
    attrs.push(request_attribute(NL80211_ATTR_SCAN_FLAGS, NL80211_SCAN_FLAG_AP));
    assert(views(attrs@) =~= seq![
        u32_request_attribute(NL80211_ATTR_IFINDEX, iface_index),
        u32_request_attribute(NL80211_ATTR_SCAN_FLAGS, NL80211_SCAN_FLAG_AP),
    ]);
    let body = GenlMessage { cmd: NL80211_CMD_TRIGGER_SCAN, version: NL80211_VERSION, attrs };
    frame_request(nl_id, NLM_F_REQUEST + NLM_F_ACK, body)
}

/// Builds the request to start a scan. The attributes of this request
/// always fit, so the building never fails.
pub fn create_trigger_scan_message(nl_id: u16, iface_index: u32) -> (result: Result<
    NlMessage,
    EncodeError,
>)
    ensures
        result is Ok,
        result->Ok_0@ == trigger_scan_request(nl_id, iface_index),
{
    Ok(trigger_scan_message(nl_id, iface_index))
}

/// Builds the request for the results of the last scan.
pub fn create_get_scan_message(nl_id: u16, iface_index: u32) -> (message: NlMessage)
    ensures
        message@ == get_scan_request(nl_id, iface_index),
{
    let mut attrs: Vec<Attribute> = Vec::new();
    attrs.push(request_attribute(NL80211_ATTR_IFINDEX, iface_index));
    assert(views(attrs@) =~= seq![u32_request_attribute(NL80211_ATTR_IFINDEX, iface_index)]);
    let body = GenlMessage { cmd: NL80211_CMD_GET_SCAN, version: NL80211_VERSION, attrs };
    frame_request(nl_id, NLM_F_REQUEST + NLM_F_DUMP, body)
}

/// Whether a message carries a payload of its family: neither the end of a
/// dump nor an acknowledgement or error report.
pub open spec fn is_ordinary(message: NlMessageView) -> bool {
    message.nl_type != NLMSG_DONE && message.nl_type != NLMSG_ERROR
}

/// The generic netlink message that a message carries, if it is an ordinary
/// one and decodes.
pub open spec fn genl_of(message: NlMessageView) -> Option<GenlMessageView> {
    if is_ordinary(message) {
        match parse_genl(message.payload) {
            Ok(body) => Some(body),
            Err(_) => None,
        }
    } else {
        None
    }
}

/// The station that the attributes of one scan result describe: the signal
/// gives the quality, the information elements give the name. There is none
/// if the signal is absent or has not four bytes, if the elements are absent,
/// or if the name is empty or no text.
pub open spec fn station_of_bss(bss: Seq<AttributeView>) -> Option<StationView> {
    match i32_attribute(bss, NL80211_BSS_SIGNAL_MBM) {
        Err(_) => None,
        Ok(signal) => match required(bss, NL80211_BSS_INFORMATION_ELEMENTS) {
            Err(_) => None,
            Ok(elements) => match text_of(ssid_of(elements)) {
                None => None,
                Some(ssid) => if ssid.len() == 0 {
                    None
                } else {
                    Some(StationView { ssid, quality: quality_of(signal as int) as u8 })
                },
            },
        },
    }
}

/// The station that one message of a scan dump describes, if it describes
/// one: the message is ordinary and decodes, and its scan result attribute
/// decodes to a station.
pub open spec fn scan_entry(message: NlMessageView) -> Option<StationView> {
    match genl_of(message) {
        None => None,
        Some(body) => match nested_attributes(body.attrs, NL80211_ATTR_BSS) {
            Err(_) => None,
            Ok(bss) => station_of_bss(bss),
        },
    }
}

/// A station read out of a scan result has a name, and a quality from 0 to
/// 100.
pub proof fn scan_entries_are_named_percentages(message: NlMessageView)
    ensures
        match scan_entry(message) {
            Some(station) => station.ssid.len() > 0 && station.quality <= 100,
            None => true,
        },
{
}

/// The interface that one message of an interface dump describes, or the
/// error of decoding it; nothing for a message that is not ordinary.
pub open spec fn interface_entry(message: NlMessageView) -> Option<Result<
    InterfaceView,
    DecodeError,
>> {
    if is_ordinary(message) {
        match parse_genl(message.payload) {
            Ok(body) => Some(interface_of(body)),
            Err(e) => Some(Err(e)),
        }
    } else {
        None
    }
}

/// Decodes the generic netlink message that a message carries.
pub fn get_payload(message: &NlMessage) -> (body: Option<GenlMessage>)
    ensures
        body is Some <==> genl_of(message@) is Some,
        body matches Some(b) ==> Some(b@) == genl_of(message@),
{
    if message.is_done() || message.is_error() {
        return None;
    }
    match GenlMessage::parse(message.payload.as_slice()) {
        Ok(body) => Some(body),
        Err(_) => None,
    }
}

/// Reads the station out of one message of a scan dump. A message that does
/// not give one is passed over, whatever the reason.
pub fn station_from_message(message: &NlMessage) -> (station: Option<Station>)
    ensures
        station is Some <==> scan_entry(message@) is Some,
        station matches Some(s) ==> Some(s@) == scan_entry(message@),
{
    let body = match get_payload(message) {
        Some(body) => body,
        None => {
            return None;
        },
    };
    let bss = match get_nested_attributes(&body.attrs, NL80211_ATTR_BSS) {
        Ok(bss) => bss,
        Err(_) => {
            return None;
        },
    };
    let signal_mbm: i32 = match get_attr_i32(&bss, NL80211_BSS_SIGNAL_MBM) {
        Ok(signal) => signal,
        Err(_) => {
            return None;
        },
    };
    let quality: u8 = dbm_level_to_quality(signal_mbm);
    let elements = match get_attr_bytes(&bss, NL80211_BSS_INFORMATION_ELEMENTS) {
        Ok(elements) => elements,
        Err(_) => {
            return None;
        },
    };
    let ssid_bytes = extract_ssid(elements.as_slice());
    match utf8_to_string(ssid_bytes.as_slice()) {
        Some(ssid) => {
            if ssid.as_str().is_empty() {
                None
            } else {
                Some(Station { ssid, quality })
            }
        },
        None => None,
    }
}

/// Reads the interface out of one message of an interface dump; nothing for
/// a message that is not ordinary.
pub fn interface_from_message(message: &NlMessage) -> (entry: Option<Result<
    Interface,
    DecodeError,
>>)
    ensures
        match (entry, interface_entry(message@)) {
            (None, None) => true,
            (Some(Ok(interface)), Some(Ok(expected))) => interface@ == expected,
            (Some(Err(e)), Some(Err(expected))) => e == expected,
            _ => false,
        },
{
    if message.is_done() || message.is_error() {
        return None;
    }
    match GenlMessage::parse(message.payload.as_slice()) {
        Ok(body) => Some(Interface::try_from(&body)),
        Err(e) => Some(Err(e)),
    }
}

/// The stations collected so far, and behind them those that the messages
/// describe, in their order.
pub open spec fn collected(stations: Seq<StationView>, messages: Seq<NlMessageView>) -> Seq<
    StationView,
>
    decreases messages.len(),
{
    if messages.len() == 0 {
        stations
    } else {
        match scan_entry(messages.last()) {
            Some(station) => collected(stations, messages.drop_last()).push(station),
            None => collected(stations, messages.drop_last()),
        }
    }
}

/// What one message of the interface dump adds to the interfaces listed so
/// far. A message that is not ordinary adds nothing, and neither does one
/// that lacks an attribute of an interface: it describes a device that cannot
/// be named. A malformed one is an error.
pub open spec fn listing_with(listed: Seq<InterfaceView>, message: NlMessageView) -> Result<
    Seq<InterfaceView>,
    DecodeError,
> {
    match interface_entry(message) {
        None => Ok(listed),
        Some(Err(DecodeError::MissingAttribute)) => Ok(listed),
        Some(Err(e)) => Err(e),
        Some(Ok(interface)) => Ok(listed.push(interface)),
    }
}

/// The interfaces listed so far, and behind them those that the messages
/// describe, in their order; the first malformed message is an error.
pub open spec fn listing(listed: Seq<InterfaceView>, messages: Seq<NlMessageView>) -> Result<
    Seq<InterfaceView>,
    DecodeError,
>
    decreases messages.len(),
{
    if messages.len() == 0 {
        Ok(listed)
    } else {
        match listing_with(listed, messages[0]) {
            Err(e) => Err(e),
            Ok(next) => listing(next, messages.skip(1)),
        }
    }
}

/// The values of a sequence of interfaces.
pub open spec fn interface_views(interfaces: Seq<Interface>) -> Seq<InterfaceView> {
    interfaces.map_values(|i: Interface| i@)
}

/// Where the first interface of the given name stands, if there is one.
pub open spec fn position_of(interfaces: Seq<InterfaceView>, name: Seq<char>) -> Option<int>
    decreases interfaces.len(),
{
    if interfaces.len() == 0 {
        None
    } else if interfaces[0].name == name {
        Some(0)
    } else {
        match position_of(interfaces.skip(1), name) {
            Some(at) => Some(at + 1),
            None => None,
        }
    }
}

/// What an acknowledgement or error report says: an error code of zero
/// accepts the request, another rejects it, and a report too short for a code
/// is malformed.
pub open spec fn verdict(report: NlMessageView) -> Result<(), ScanError> {
    match error_code(report.payload) {
        Err(e) => Err(ScanError::Decode(e)),
        Ok(code) => if code == 0 {
            Ok(())
        } else {
            Err(ScanError::Protocol(code))
        },
    }
}

/// Where the first acknowledgement or error report stands among the
/// messages, or their number if there is none.
pub open spec fn first_report(messages: Seq<NlMessageView>) -> int
    decreases messages.len(),
{
    if messages.len() == 0 {
        0
    } else if messages[0].is_error() {
        0
    } else {
        1 + first_report(messages.skip(1))
    }
}

/// What a batch says of the request that was sent before it: the verdict of
/// the first acknowledgement or error report in it, or nothing if it holds
/// none.
pub open spec fn acknowledgement(batch: Seq<NlMessageView>) -> Option<Result<(), ScanError>> {
    if first_report(batch) < batch.len() {
        Some(verdict(batch[first_report(batch)]))
    } else {
        None
    }
}

/// Reads the stations out of the first `end` messages of a batch of the scan
/// dump and appends them.
pub fn collect_stations(stations: &mut Vec<Station>, batch: &Vec<NlMessage>, end: usize)
    requires
        end <= batch@.len(),
    ensures
        station_views(final(stations)@) == collected(
            station_views(old(stations)@),
            message_views(batch@).take(end as int),
        ),
{
    let ghost all = message_views(batch@).take(end as int);
    let ghost start = station_views(stations@);
    let mut i: usize = 0;
    assert(all.take(0) =~= Seq::empty());
    while i < end
        invariant
            i <= end <= batch@.len(),
            all == message_views(batch@).take(end as int),
            station_views(stations@) == collected(start, all.take(i as int)),
        decreases end - i,
    {
        let ghost before = station_views(stations@);
        assert(all.take(i + 1).last() == batch@[i as int]@);
        assert(all.take(i + 1).drop_last() =~= all.take(i as int));
        match station_from_message(&batch[i]) {
            Some(station) => {
                stations.push(station);
                assert(station_views(stations@) =~= before.push(station@));
            },
            None => {},
        }
        i += 1;
    }
    assert(all.take(i as int) =~= all);
}

/// Reads the interfaces out of the first `end` messages of a batch of the
/// interface dump and appends them. If one of the messages is malformed,
/// nothing is appended.
pub fn collect_interfaces(
    interfaces: &mut Vec<Interface>,
    batch: &Vec<NlMessage>,
    end: usize,
) -> (result: Result<(), DecodeError>)
    requires
        end <= batch@.len(),
    ensures
        match (
            result,
            listing(interface_views(old(interfaces)@), message_views(batch@).take(end as int)),
        ) {
            (Ok(()), Ok(listed)) => interface_views(final(interfaces)@) == listed,
            (Err(e), Err(expected)) => e == expected && final(interfaces)@ == old(interfaces)@,
            _ => false,
        },
{
    let ghost all = message_views(batch@).take(end as int);
    let ghost start = interface_views(interfaces@);
    let mut found: Vec<Interface> = Vec::new();
    let mut i: usize = 0;
    assert(all.skip(0) =~= all);
    assert(start + interface_views(found@) =~= start);
    while i < end
        invariant
            i <= end <= batch@.len(),
            all == message_views(batch@).take(end as int),
            start == interface_views(old(interfaces)@),
            interfaces@ == old(interfaces)@,
            listing(start, all) == listing(start + interface_views(found@), all.skip(i as int)),
        decreases end - i,
    {
        let ghost before = interface_views(found@);
        assert(all.skip(i as int)[0] == batch@[i as int]@);
        assert(all.skip(i as int).skip(1) =~= all.skip(i + 1));
        match interface_from_message(&batch[i]) {
            None => {},
            Some(Err(e)) => {
                match e {
                    DecodeError::MissingAttribute => {},
                    _ => {
                        return Err(e);
                    },
                }
            },
            Some(Ok(interface)) => {
                found.push(interface);
                assert(start + interface_views(found@) =~= (start + before).push(interface@));
            },
        }
        i += 1;
    }
    let ghost added = interface_views(found@);
    interfaces.append(&mut found);
    assert(interface_views(interfaces@) =~= start + added);
    Ok(())
}

/// Finds the first interface of the given name.
pub fn find_interface(interfaces: &Vec<Interface>, name: &str) -> (found: Option<usize>)
    ensures
        match (found, position_of(interface_views(interfaces@), name@)) {
            (Some(at), Some(expected)) => at == expected && at < interfaces@.len(),
            (None, None) => true,
            _ => false,
        },
{
    let ghost all = interface_views(interfaces@);
    let mut i: usize = 0;
    assert(all.skip(0) =~= all);
    while i < interfaces.len()
        invariant
            i <= interfaces@.len(),
            all == interface_views(interfaces@),
            position_of(all, name@) == match position_of(all.skip(i as int), name@) {
                Some(at) => Some(at + i),
                None => None,
            },
        decreases interfaces@.len() - i,
    {
        assert(all.skip(i as int)[0] == interfaces@[i as int]@);
        assert(all.skip(i as int).skip(1) =~= all.skip(i + 1));
        if str_eq(interfaces[i].name.as_str(), name) {
            return Some(i);
        }
        i += 1;
    }
    None
}

/// Finds the first acknowledgement or error report.
fn find_report(batch: &Vec<NlMessage>) -> (at: usize)
    ensures
        at == first_report(message_views(batch@)),
        at <= batch@.len(),
{
    let ghost all = message_views(batch@);
    let mut at: usize = 0;
    assert(all.skip(0) =~= all);
    while at < batch.len()
        invariant
            at <= batch@.len(),
            all == message_views(batch@),
            first_report(all) == at + first_report(all.skip(at as int)),
        decreases batch@.len() - at,
    {
        assert(all.skip(at as int)[0] == batch@[at as int]@);
        assert(all.skip(at as int).skip(1) =~= all.skip(at + 1));
        if batch[at].is_error() {
            return at;
        }
        at += 1;
    }
    at
}

/// Reads what a batch says of the request that was sent before it.
pub fn read_acknowledgement(batch: &Vec<NlMessage>) -> (said: Option<Result<(), ScanError>>)
    ensures
        said == acknowledgement(message_views(batch@)),
{
    let at = find_report(batch);
    if at < batch.len() {
        assert(message_views(batch@)[at as int] == batch@[at as int]@);
        match batch[at].get_error_code() {
            Err(e) => Some(Err(ScanError::Decode(e))),
            Ok(code) => if code == 0 {
                Some(Ok(()))
            } else {
                Some(Err(ScanError::Protocol(code)))
            },
        }
    } else {
        None
    }
}

/// What `station_from_message` gives for the messages of a dump are the
/// stations that the messages describe.
proof fn stations_of_outcomes(messages: Seq<NlMessage>, outcomes: Seq<Option<Station>>)
    requires
        outcomes_of(station_from_message, messages, outcomes),
    ensures
        station_views(somes(outcomes)) == collected(Seq::empty(), message_views(messages)),
    decreases messages.len(),
{
    if messages.len() == 0 {
        assert(station_views(somes(outcomes)) =~= Seq::empty());
    } else {
        let front = messages.drop_last();
        let told = outcomes.drop_last();
        assert forall|k: int| 0 <= k < front.len() implies call_ensures(
            station_from_message,
            (&#[trigger] front[k],),
            told[k],
        ) by {
            assert(front[k] == messages[k]);
        }
        stations_of_outcomes(front, told);
        assert(message_views(messages).drop_last() =~= message_views(front));
        assert(message_views(messages).last() == messages.last()@);
        assert(call_ensures(
            station_from_message,
            (&messages[messages.len() - 1],),
            outcomes.last(),
        ));
        match outcomes.last() {
            Some(station) => {
                assert(station_views(somes(told).push(station)) =~= station_views(
                    somes(told),
                ).push(station@));
            },
            None => {},
        }
    }
}

/// Reads the stations out of the answer to a request for scan results, given
/// as the batches in which it arrived: those that the messages before the end
/// of the dump describe, in the order of arrival.
pub fn get_scan_results(batches: &Vec<Vec<NlMessage>>) -> (stations: Vec<Station>)
    ensures
        station_views(stations@) == collected(
            Seq::empty(),
            message_views(dump_messages(batches@)),
        ),
{
    let dump = recv_all(batches, station_from_message);
    proof {
        let outcomes = choose|outcomes: Seq<Option<Station>>|
            outcomes_of(station_from_message, dump_messages(batches@), outcomes) && dump.items@
                == somes(outcomes);
        stations_of_outcomes(dump_messages(batches@), outcomes);
    }
    dump.items
}

/// The messages of a dump taken batch by batch are the messages of the dump:
/// listing goes through the batches as it goes through their messages.
proof fn listing_goes_on(
    listed: Seq<InterfaceView>,
    front: Seq<NlMessageView>,
    back: Seq<NlMessageView>,
)
    ensures
        listing(listed, front + back) == match listing(listed, front) {
            Ok(next) => listing(next, back),
            Err(e) => Err(e),
        },
    decreases front.len(),
{
    if front.len() == 0 {
        assert(front + back =~= back);
    } else {
        assert((front + back)[0] == front[0]);
        assert((front + back).skip(1) =~= front.skip(1) + back);
        match listing_with(listed, front[0]) {
            Ok(next) => {
                listing_goes_on(next, front.skip(1), back);
            },
            Err(_) => {},
        }
    }
}

/// Reads the interfaces out of the answer to a request for the interfaces,
/// given as the batches in which it arrived: those that the messages before
/// the end of the dump describe, in the order of arrival, or the error of the
/// first malformed message among them.
pub fn get_interfaces(batches: &Vec<Vec<NlMessage>>) -> (result: Result<
    Vec<Interface>,
    DecodeError,
>)
    ensures
        match (result, listing(Seq::empty(), message_views(dump_messages(batches@)))) {
            (Ok(interfaces), Ok(listed)) => interface_views(interfaces@) == listed,
            (Err(e), Err(expected)) => e == expected,
            _ => false,
        },
{
    let mut interfaces: Vec<Interface> = Vec::new();
    let mut read: usize = 0;
    let ghost mut seen: Seq<NlMessage> = Seq::empty();
    assert(batches@.skip(0) =~= batches@);
    assert(interface_views(interfaces@) =~= Seq::empty());
    assert(message_views(seen) =~= Seq::empty());
    while read < batches.len()
        invariant
            read <= batches@.len(),
            dump_messages(batches@) == seen + dump_messages(batches@.skip(read as int)),
            listing(Seq::empty(), message_views(seen)) == Ok::<Seq<InterfaceView>, DecodeError>(
                interface_views(interfaces@),
            ),
        decreases batches@.len() - read,
    {
        let batch = &batches[read];
        let end = find_done(batch);
        let ghost before = seen;
        let ghost rest = batches@.skip(read as int);
        let ghost part = batch@.take(end as int);
        assert(rest[0] == batches@[read as int]);
        assert(rest.skip(1) =~= batches@.skip(read + 1));
        proof {
            seen = before + part;
            assert(message_views(seen) =~= message_views(before) + message_views(batch@).take(
                end as int,
            ));
            listing_goes_on(
                Seq::empty(),
                message_views(before),
                message_views(batch@).take(end as int),
            );
        }
        match collect_interfaces(&mut interfaces, batch, end) {
            Ok(()) => {},
            Err(e) => {
                proof {
                    let tail = if end < batch@.len() {
                        Seq::<NlMessage>::empty()
                    } else {
                        dump_messages(rest.skip(1))
                    };
                    if end == batch@.len() {
                        assert(part =~= batch@);
                        assert(before + (batch@ + tail) =~= (before + batch@) + tail);
                    }
                    assert(dump_messages(batches@) =~= seen + tail);
                    assert(message_views(seen + tail) =~= message_views(seen) + message_views(
                        tail,
                    ));
                    listing_goes_on(Seq::empty(), message_views(seen), message_views(tail));
                }
                return Err(e);
            },
        }
        read += 1;
        if end < batch.len() {
            proof {
                assert(dump_messages(batches@) =~= seen);
            }
            return Ok(interfaces);
        }
        proof {
            assert(part =~= batch@);
            assert(before + (batch@ + dump_messages(rest.skip(1))) =~= (before + batch@)
                + dump_messages(rest.skip(1)));
        }
    }
    proof {
        assert(batches@.skip(read as int) =~= Seq::<Vec<NlMessage>>::empty());
        assert(seen + Seq::<NlMessage>::empty() =~= seen);
    }
    Ok(interfaces)
}

/// The requests that name an interface carry its index so that decoding them
/// gives it back, and the request to scan carries the flag for access
/// points.
pub proof fn requests_carry_the_interface_index(nl_id: u16, iface_index: u32)
    ensures
        match parse_genl(get_scan_request(nl_id, iface_index).payload) {
            Ok(body) => body.cmd == NL80211_CMD_GET_SCAN && u32_attribute(
                body.attrs,
                NL80211_ATTR_IFINDEX,
            ) == Ok::<u32, DecodeError>(iface_index),
            Err(_) => false,
        },
        match parse_genl(trigger_scan_request(nl_id, iface_index).payload) {
            Ok(body) => body.cmd == NL80211_CMD_TRIGGER_SCAN && u32_attribute(
                body.attrs,
                NL80211_ATTR_IFINDEX,
            ) == Ok::<u32, DecodeError>(iface_index) && u32_attribute(
                body.attrs,
                NL80211_ATTR_SCAN_FLAGS,
            ) == Ok::<u32, DecodeError>(NL80211_SCAN_FLAG_AP),
            Err(_) => false,
        },
{
    let index_attr = u32_request_attribute(NL80211_ATTR_IFINDEX, iface_index);
    let flags_attr = u32_request_attribute(NL80211_ATTR_SCAN_FLAGS, NL80211_SCAN_FLAG_AP);
    u32_round_trip(iface_index);
    u32_round_trip(NL80211_SCAN_FLAG_AP);
    let get = GenlMessageView {
        cmd: NL80211_CMD_GET_SCAN,
        version: NL80211_VERSION,
        attrs: seq![index_attr],
    };
    let trigger = GenlMessageView {
        cmd: NL80211_CMD_TRIGGER_SCAN,
        version: NL80211_VERSION,
        attrs: seq![index_attr, flags_attr],
    };
    genl_round_trip(get);
    genl_round_trip(trigger);
    assert(index_attr.kind() == NL80211_ATTR_IFINDEX);
    assert(flags_attr.kind() == NL80211_ATTR_SCAN_FLAGS);
    assert(get.attrs.last() == index_attr);
    assert(trigger.attrs.last() == flags_attr);
    assert(trigger.attrs.drop_last() =~= seq![index_attr]);
    assert(seq![index_attr].last() == index_attr);
}

/// Whether a message announces new scan results. A message that is not
/// ordinary or does not decode announces nothing.
pub open spec fn announces_scan_results(message: NlMessageView) -> bool {
    match genl_of(message) {
        Some(body) => body.cmd == NL80211_CMD_NEW_SCAN_RESULTS,
        None => false,
    }
}

/// Whether one of the messages announces new scan results.
pub open spec fn any_announces_scan_results(messages: Seq<NlMessageView>) -> bool {
    exists|i: int| 0 <= i < messages.len() && announces_scan_results(#[trigger] messages[i])
}

/// Whether a batch read from the event channel tells that the scan is
/// complete.
pub fn has_scan_results(batch: &Vec<NlMessage>) -> (found: bool)
    ensures
        found == any_announces_scan_results(message_views(batch@)),
{
    let ghost all = message_views(batch@);
    let mut i: usize = 0;
    while i < batch.len()
        invariant
            i <= batch@.len(),
            all == message_views(batch@),
            forall|k: int| 0 <= k < i ==> !announces_scan_results(#[trigger] all[k]),
        decreases batch@.len() - i,
    {
        assert(all[i as int] == batch@[i as int]@);
        match get_payload(&batch[i]) {
            Some(body) => {
                if body.cmd == NL80211_CMD_NEW_SCAN_RESULTS {
                    assert(announces_scan_results(all[i as int]));
                    return true;
                }
            },
            None => {},
        }
        i += 1;
    }
    false
}

} // verus!
