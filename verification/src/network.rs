//! The network side of the daemon: the commands it answers, the stations it
//! reports, and how a list of stations is put in order.

use vstd::prelude::*;
use crate::order::{str_lt, text_lt, text_lt_is_a_strict_total_order};
use crate::text::{from_utf8, text_of};

verus! {

/// What the web side can ask of the network side.
#[derive(Debug)]
pub enum Command {
    CheckConnectivity,
    ListConnections,
    ListWiFiNetworks,
    Stop,
}

/// The answer to a command, one variant for each.
#[derive(Debug)]
pub enum CommandResponse {
    CheckConnectivity(Connectivity),
    ListConnections(Vec<ConnectionDetails>),
    ListWiFiNetworks(Vec<Station>),
    Stop(Stop),
}

/// The state of connectivity, by name.
#[derive(Debug)]
pub struct Connectivity {
    pub connectivity: String,
}

impl Connectivity {
    /// The state of connectivity of this name.
    pub fn new(connectivity: String) -> (made: Self)
        ensures
            made.connectivity == connectivity,
    {
        Self { connectivity }
    }
}

/// A stored connection profile: its name and its identifier.
#[derive(Debug)]
pub struct ConnectionDetails {
    pub id: String,
    pub uuid: String,
}

impl ConnectionDetails {
    /// The profile of this name and identifier.
    pub fn new(id: String, uuid: String) -> (made: Self)
        ensures
            made.id == id,
            made.uuid == uuid,
    {
        Self { id, uuid }
    }
}

/// A network in range: its name and the quality of its signal in percent.
#[derive(Debug, Clone, PartialEq, Eq, Hash)]
pub struct Station {
    pub ssid: String,
    pub quality: u8,
}

/// A station as a value.
pub struct StationView {
    pub ssid: Seq<char>,
    pub quality: u8,
}

impl View for Station {
    type V = StationView;

    open spec fn view(&self) -> StationView {
        StationView { ssid: self.ssid@, quality: self.quality }
    }
}

/// The outcome of a stop command.
#[derive(Debug)]
pub struct Stop {
    pub stop: String,
}

impl Stop {
    /// The outcome with this status.
    pub fn new(status: &str) -> (made: Self)
        ensures
            made.stop@ == status@,
    {
        Self { stop: status.to_owned() }
    }
}

/// What is read of an access point that the network service has seen: the
/// bytes of its name, if it announces one, and its signal strength in percent.
#[derive(Debug, Clone)]
pub struct AccessPoint {
    pub ssid: Option<Vec<u8>>,
    pub strength: u8,
}

/// An access point as a value.
pub struct AccessPointView {
    pub ssid: Option<Seq<u8>>,
    pub strength: u8,
}

impl View for AccessPoint {
    type V = AccessPointView;

    open spec fn view(&self) -> AccessPointView {
        AccessPointView {
            ssid: match self.ssid {
                Some(bytes) => Some(bytes@),
                None => None,
            },
            strength: self.strength,
        }
    }
}

/// Why an access point gives no station.
#[derive(Debug, Clone, Copy, PartialEq, Eq, Structural)]
pub enum StationError {
    /// The access point has no name, or its name is no text.
    SsidNotAString,
}

/// The name that the bytes of an SSID spell, if there are any and they are
/// text.
pub open spec fn ssid_text(ssid: Option<Seq<u8>>) -> Option<Seq<char>> {
    match ssid {
        Some(bytes) => text_of(bytes),
        None => None,
    }
}

/// The station that an access point gives, if its name is text.
pub open spec fn station_of(ap: AccessPointView) -> Option<StationView> {
    match ssid_text(ap.ssid) {
        Some(ssid) => Some(StationView { ssid, quality: ap.strength }),
        None => None,
    }
}

/// An SSID could be random bytes and not a UTF-8 encoded string: this reads
/// it as text where it is one.
pub fn ssid_to_str<'a>(ssid: Option<&'a [u8]>) -> (text: Option<&'a str>)
    ensures
        match (text, ssid) {
            (Some(s), Some(bytes)) => Some(s@) == text_of(bytes@),
            (None, Some(bytes)) => text_of(bytes@) is None,
            (None, None) => true,
            (Some(_), None) => false,
        },
{
    match ssid {
        Some(bytes) => from_utf8(bytes),
        None => None,
    }
}

impl Station {
    /// The station of this name and quality.
    pub fn new(ssid: String, quality: u8) -> (made: Self)
        ensures
            made.ssid == ssid,
            made.quality == quality,
    {
        Self { ssid, quality }
    }

    /// The station that an access point stands for, or an error if its name is
    /// missing or no text.
    pub fn try_from(ap: &AccessPoint) -> (result: Result<Station, StationError>)
        ensures
            match result {
                Ok(station) => station_of(ap@) == Some(station@),
                Err(e) => station_of(ap@) is None && e == StationError::SsidNotAString,
            },
    {
        let bytes: Option<&[u8]> = match &ap.ssid {
            Some(v) => Some(v.as_slice()),
            None => None,
        };
        match ssid_to_str(bytes) {
            Some(ssid) => Ok(Station::new(ssid.to_owned(), ap.strength)),
            None => Err(StationError::SsidNotAString),
        }
    }

    /// A copy of the station.
    pub fn duplicate(&self) -> (copy: Station)
        ensures
            copy@ == self@,
    {
        Station { ssid: self.ssid.clone(), quality: self.quality }
    }
}

/// The answer to a request for the list of networks.
pub fn list_wifi_networks(stations: Vec<Station>) -> (response: CommandResponse)
    ensures
        response == CommandResponse::ListWiFiNetworks(stations),
{
    CommandResponse::ListWiFiNetworks(stations)
}

/// The values of a sequence of stations.
pub open spec fn station_views(stations: Seq<Station>) -> Seq<StationView> {
    stations.map_values(|s: Station| s@)
}

/// `a` ranks below `b`: it has the lower quality, or the same quality and the
/// name that comes first.
pub open spec fn station_lt(a: StationView, b: StationView) -> bool {
    a.quality < b.quality || (a.quality == b.quality && text_lt(a.ssid, b.ssid))
}

/// No station ranks below one that stands behind it.
pub open spec fn sorted_descending(stations: Seq<StationView>) -> bool {
    forall|i: int, j: int|
        0 <= i < j < stations.len() ==> !station_lt(#[trigger] stations[i], #[trigger] stations[j])
}

/// Every station ranks above all that stand behind it.
pub open spec fn strictly_descending(stations: Seq<StationView>) -> bool {
    forall|i: int, j: int|
        0 <= i < j < stations.len() ==> station_lt(#[trigger] stations[j], #[trigger] stations[i])
}

/// No two stations have the same name.
pub open spec fn distinct_ssids(stations: Seq<StationView>) -> bool {
    forall|i: int, j: int|
        0 <= i < j < stations.len() ==> (#[trigger] stations[i]).ssid != (
        #[trigger] stations[j]).ssid
}

/// Every station of `part` is one of `whole`.
pub open spec fn drawn_from(part: Seq<StationView>, whole: Seq<StationView>) -> bool {
    forall|i: int| 0 <= i < part.len() ==> whole.contains(#[trigger] part[i])
}

/// `list` names the station `wanted` with at least its quality.
pub open spec fn represents(list: Seq<StationView>, wanted: StationView) -> bool {
    exists|i: int|
        0 <= i < list.len() && (#[trigger] list[i]).ssid == wanted.ssid && list[i].quality
            >= wanted.quality
}

/// `list` is the station list made of `candidates`: the candidates with a
/// name, each name once and with the best quality seen for it, the best
/// station first and equal qualities by descending name.
pub open spec fn is_station_list_of(list: Seq<StationView>, candidates: Seq<StationView>) -> bool {
    &&& strictly_descending(list)
    &&& distinct_ssids(list)
    &&& drawn_from(list, candidates)
    &&& forall|i: int| 0 <= i < list.len() ==> (#[trigger] list[i]).ssid.len() > 0
    &&& forall|k: int|
        0 <= k < candidates.len() && (#[trigger] candidates[k]).ssid.len() > 0 ==> represents(
            list,
            candidates[k],
        )
}

/// Ranking is a strict total order on stations.
pub proof fn station_lt_is_a_strict_total_order(a: StationView, b: StationView, c: StationView)
    ensures
        !station_lt(a, a),
        !(station_lt(a, b) && station_lt(b, a)),
        a == b || station_lt(a, b) || station_lt(b, a),
        station_lt(a, b) && station_lt(b, c) ==> station_lt(a, c),
        station_lt(a, b) && !station_lt(c, b) ==> station_lt(a, c),
{
    text_lt_is_a_strict_total_order(a.ssid, b.ssid, c.ssid);
    text_lt_is_a_strict_total_order(b.ssid, c.ssid, a.ssid);
    text_lt_is_a_strict_total_order(c.ssid, b.ssid, a.ssid);
}

/// Two lists that rank strictly and hold the same stations are the same
/// list.
proof fn same_stations_same_list(a: Seq<StationView>, b: Seq<StationView>)
    requires
        strictly_descending(a),
        strictly_descending(b),
        drawn_from(a, b),
        drawn_from(b, a),
    ensures
        a == b,
    decreases a.len(),
{
    if a.len() == 0 {
        if b.len() > 0 {
            assert(a.contains(b[0]));
        }
        assert(a =~= b);
    } else {
        assert(b.contains(a[0]));
        let j = choose|j: int| 0 <= j < b.len() && b[j] == a[0];
        assert(a.contains(b[0]));
        let i = choose|i: int| 0 <= i < a.len() && a[i] == b[0];
        station_lt_is_a_strict_total_order(a[0], b[0], a[0]);
        if j > 0 {
            assert(station_lt(b[j], b[0]));
            if i > 0 {
                assert(station_lt(a[i], a[0]));
            }
        }
        assert(a[0] == b[0]);
        let ar = a.skip(1);
        let br = b.skip(1);
        assert forall|x: int, y: int| 0 <= x < y < ar.len() implies station_lt(
            #[trigger] ar[y],
            #[trigger] ar[x],
        ) by {
            assert(ar[x] == a[x + 1] && ar[y] == a[y + 1]);
        }
        assert forall|x: int, y: int| 0 <= x < y < br.len() implies station_lt(
            #[trigger] br[y],
            #[trigger] br[x],
        ) by {
            assert(br[x] == b[x + 1] && br[y] == b[y + 1]);
        }
        assert forall|x: int| 0 <= x < ar.len() implies br.contains(#[trigger] ar[x]) by {
            assert(ar[x] == a[x + 1]);
            assert(b.contains(a[x + 1]));
            let y = choose|y: int| 0 <= y < b.len() && b[y] == a[x + 1];
            assert(station_lt(a[x + 1], a[0]));
            station_lt_is_a_strict_total_order(a[0], a[0], a[0]);
            assert(y > 0);
            assert(br[y - 1] == b[y]);
        }
        assert forall|y: int| 0 <= y < br.len() implies ar.contains(#[trigger] br[y]) by {
            assert(br[y] == b[y + 1]);
            assert(a.contains(b[y + 1]));
            let x = choose|x: int| 0 <= x < a.len() && a[x] == b[y + 1];
            assert(station_lt(b[y + 1], b[0]));
            station_lt_is_a_strict_total_order(b[0], b[0], b[0]);
            assert(x > 0);
            assert(ar[x - 1] == a[x]);
        }
        same_stations_same_list(ar, br);
        assert(a =~= seq![a[0]] + ar);
        assert(b =~= seq![b[0]] + br);
    }
}

/// Every station of one station list of the candidates is in every other.
proof fn station_lists_share_their_stations(
    a: Seq<StationView>,
    b: Seq<StationView>,
    candidates: Seq<StationView>,
)
    requires
        is_station_list_of(a, candidates),
        is_station_list_of(b, candidates),
    ensures
        drawn_from(a, b),
{
    assert forall|i: int| 0 <= i < a.len() implies b.contains(#[trigger] a[i]) by {
        assert(candidates.contains(a[i]));
        let k = choose|k: int| 0 <= k < candidates.len() && candidates[k] == a[i];
        assert(represents(b, candidates[k]));
        let j = choose|j: int|
            0 <= j < b.len() && (#[trigger] b[j]).ssid == a[i].ssid && b[j].quality
                >= a[i].quality;
        assert(candidates.contains(b[j]));
        let m = choose|m: int| 0 <= m < candidates.len() && candidates[m] == b[j];
        assert(represents(a, candidates[m]));
        let n = choose|n: int|
            0 <= n < a.len() && (#[trigger] a[n]).ssid == b[j].ssid && a[n].quality
                >= b[j].quality;
        if n != i {
            if n < i {
                assert(a[n].ssid != a[i].ssid);
            } else {
                assert(a[i].ssid != a[n].ssid);
            }
        }
        assert(a[i] == b[j]);
    }
}

/// The candidates have one station list and no other: the description of the
/// list leaves nothing open.
pub proof fn station_list_is_unique(
    a: Seq<StationView>,
    b: Seq<StationView>,
    candidates: Seq<StationView>,
)
    requires
        is_station_list_of(a, candidates),
        is_station_list_of(b, candidates),
    ensures
        a == b,
{
    station_lists_share_their_stations(a, b, candidates);
    station_lists_share_their_stations(b, a, candidates);
    same_stations_same_list(a, b);
}

/// Whether `a` ranks below `b`.
pub fn station_less(a: &Station, b: &Station) -> (less: bool)
    ensures
        less == station_lt(a@, b@),
{
    a.quality < b.quality || (a.quality == b.quality && str_lt(a.ssid.as_str(), b.ssid.as_str()))
}

/// Where `station` goes in a descending list: behind everything that does not
/// rank below it.
fn insertion_point(sorted: &Vec<Station>, station: &Station) -> (at: usize)
    requires
        sorted_descending(station_views(sorted@)),
    ensures
        at <= sorted@.len(),
        forall|i: int| 0 <= i < at ==> !station_lt(#[trigger] station_views(sorted@)[i], station@),
        forall|j: int|
            at <= j < sorted@.len() ==> !station_lt(station@, #[trigger] station_views(sorted@)[j]),
{
    let ghost all = station_views(sorted@);
    let mut at: usize = 0;
    while at < sorted.len()
        invariant
            at <= sorted@.len(),
            all == station_views(sorted@),
            sorted_descending(all),
            forall|i: int| 0 <= i < at ==> !station_lt(#[trigger] all[i], station@),
        decreases sorted@.len() - at,
    {
        assert(all[at as int] == sorted@[at as int]@);
        if station_less(&sorted[at], station) {
            assert forall|j: int| at <= j < sorted@.len() implies !station_lt(
                station@,
                #[trigger] all[j],
            ) by {
                station_lt_is_a_strict_total_order(all[at as int], station@, all[j]);
                station_lt_is_a_strict_total_order(station@, all[j], all[at as int]);
            }
            return at;
        }
        at += 1;
    }
    at
}

/// Sorts by descending rank: quality first, then name.
fn sort_descending(stations: &Vec<Station>) -> (sorted: Vec<Station>)
    ensures
        sorted_descending(station_views(sorted@)),
        drawn_from(station_views(sorted@), station_views(stations@)),
        drawn_from(station_views(stations@), station_views(sorted@)),
{
    let ghost input = station_views(stations@);
    let mut sorted: Vec<Station> = Vec::new();
    let mut i: usize = 0;
    while i < stations.len()
        invariant
            i <= stations@.len(),
            input == station_views(stations@),
            sorted_descending(station_views(sorted@)),
            drawn_from(station_views(sorted@), input),
            drawn_from(input.take(i as int), station_views(sorted@)),
        decreases stations@.len() - i,
    {
        let station = stations[i].duplicate();
        let at = insertion_point(&sorted, &station);
        let ghost before = station_views(sorted@);
        sorted.insert(at, station);
        proof {
            let now = station_views(sorted@);
            assert(now =~= before.insert(at as int, station@));
            assert(station@ == input[i as int]);
            assert forall|a: int, b: int| 0 <= a < b < now.len() implies !station_lt(
                #[trigger] now[a],
                #[trigger] now[b],
            ) by {
                if b == at {
                    assert(now[a] == before[a]);
                } else if a == at {
                    assert(now[b] == before[b - 1]);
                } else {
                    let x = if a < at { a } else { a - 1 };
                    let y = if b < at { b } else { b - 1 };
                    assert(now[a] == before[x]);
                    assert(now[b] == before[y]);
                }
            }
            assert forall|k: int| 0 <= k < now.len() implies input.contains(#[trigger] now[k]) by {
                if k == at {
                } else {
                    let x = if k < at { k } else { k - 1 };
                    assert(now[k] == before[x]);
                }
            }
            assert forall|k: int| 0 <= k < i + 1 implies now.contains(
                #[trigger] input.take(i + 1)[k],
            ) by {
                if k == i {
                    assert(now[at as int] == input[k]);
                } else {
                    assert(input.take(i as int)[k] == input[k]);
                    let x = choose|x: int| 0 <= x < before.len() && before[x] == input[k];
                    let y = if x < at { x } else { x + 1 };
                    assert(now[y] == before[x]);
                }
            }
        }
        i += 1;
    }
    assert(input.take(i as int) =~= input);
    sorted
}

/// Whether a station of the list has the given name.
fn has_ssid(stations: &Vec<Station>, ssid: &String) -> (found: bool)
    ensures
        found == exists|i: int|
            0 <= i < stations@.len() && (#[trigger] station_views(stations@)[i]).ssid == ssid@,
{
    let ghost all = station_views(stations@);
    let mut i: usize = 0;
    while i < stations.len()
        invariant
            i <= stations@.len(),
            all == station_views(stations@),
            forall|k: int| 0 <= k < i ==> (#[trigger] all[k]).ssid != ssid@,
        decreases stations@.len() - i,
    {
        assert(all[i as int] == stations@[i as int]@);
        if stations[i].ssid == *ssid {
            return true;
        }
        i += 1;
    }
    false
}

/// Keeps, of the stations that share a name, the one that stands first.
fn dedup_by_ssid(sorted: &Vec<Station>) -> (kept: Vec<Station>)
    requires
        sorted_descending(station_views(sorted@)),
    ensures
        sorted_descending(station_views(kept@)),
        distinct_ssids(station_views(kept@)),
        drawn_from(station_views(kept@), station_views(sorted@)),
        forall|k: int|
            0 <= k < sorted@.len() ==> represents(
                station_views(kept@),
                #[trigger] station_views(sorted@)[k],
            ),
{
    let ghost input = station_views(sorted@);
    let mut kept: Vec<Station> = Vec::new();
    let mut i: usize = 0;
    while i < sorted.len()
        invariant
            i <= sorted@.len(),
            input == station_views(sorted@),
            sorted_descending(input),
            sorted_descending(station_views(kept@)),
            distinct_ssids(station_views(kept@)),
            drawn_from(station_views(kept@), input),
            forall|k: int, j: int|
                0 <= k < kept@.len() && i <= j < input.len() ==> !station_lt(
                    #[trigger] station_views(kept@)[k],
                    #[trigger] input[j],
                ),
            forall|k: int| 0 <= k < i ==> represents(station_views(kept@), #[trigger] input[k]),
        decreases sorted@.len() - i,
    {
        let ghost before = station_views(kept@);
        let ghost current = input[i as int];
        assert(current == sorted@[i as int]@);
        if has_ssid(&kept, &sorted[i].ssid) {
            proof {
                let w = choose|w: int| 0 <= w < before.len() && (#[trigger] before[w]).ssid
                    == current.ssid;
                assert(!station_lt(before[w], input[i as int]));
                assert(represents(before, current));
            }
        } else {
            kept.push(sorted[i].duplicate());
            proof {
                let now = station_views(kept@);
                assert(now =~= before.push(current));
                assert forall|a: int, b: int| 0 <= a < b < now.len() implies !station_lt(
                    #[trigger] now[a],
                    #[trigger] now[b],
                ) by {
                    assert(now[a] == before[a]);
                    if b < before.len() {
                        assert(now[b] == before[b]);
                    }
                }
                assert forall|a: int, b: int| 0 <= a < b < now.len() implies (#[trigger] now[a]).ssid
                    != (#[trigger] now[b]).ssid by {
                    assert(now[a] == before[a]);
                    if b < before.len() {
                        assert(now[b] == before[b]);
                    }
                }
                assert forall|k: int| 0 <= k < now.len() implies input.contains(
                    #[trigger] now[k],
                ) by {
                    if k < before.len() {
                        assert(now[k] == before[k]);
                    }
                }
                assert forall|k: int, j: int|
                    0 <= k < now.len() && i + 1 <= j < input.len() implies !station_lt(
                    #[trigger] now[k],
                    #[trigger] input[j],
                ) by {
                    if k < before.len() {
                        assert(now[k] == before[k]);
                    }
                }
                assert forall|k: int| 0 <= k < i + 1 implies represents(
                    now,
                    #[trigger] input[k],
                ) by {
                    if k == i {
                        assert(now[before.len() as int] == current);
                    } else {
                        let w = choose|w: int|
                            0 <= w < before.len() && (#[trigger] before[w]).ssid == input[k].ssid
                                && before[w].quality >= input[k].quality;
                        assert(now[w] == before[w]);
                    }
                }
            }
        }
        i += 1;
    }
    kept
}

/// Drops the stations without a name: hidden networks.
fn drop_hidden(stations: &Vec<Station>) -> (named: Vec<Station>)
    requires
        sorted_descending(station_views(stations@)),
        distinct_ssids(station_views(stations@)),
    ensures
        sorted_descending(station_views(named@)),
        distinct_ssids(station_views(named@)),
        drawn_from(station_views(named@), station_views(stations@)),
        forall|i: int|
            0 <= i < named@.len() ==> (#[trigger] station_views(named@)[i]).ssid.len() > 0,
        forall|k: int|
            0 <= k < stations@.len() && (#[trigger] station_views(stations@)[k]).ssid.len() > 0
                ==> station_views(named@).contains(station_views(stations@)[k]),
{
    let ghost input = station_views(stations@);
    let mut named: Vec<Station> = Vec::new();
    let mut i: usize = 0;
    while i < stations.len()
        invariant
            i <= stations@.len(),
            input == station_views(stations@),
            sorted_descending(input),
            distinct_ssids(input),
            sorted_descending(station_views(named@)),
            distinct_ssids(station_views(named@)),
            forall|k: int|
                0 <= k < named@.len() ==> exists|j: int|
                    0 <= j < i && #[trigger] input[j] == (#[trigger] station_views(named@)[k]),
            forall|k: int|
                0 <= k < named@.len() ==> (#[trigger] station_views(named@)[k]).ssid.len() > 0,
            forall|k: int|
                0 <= k < i && (#[trigger] input[k]).ssid.len() > 0 ==> station_views(
                    named@,
                ).contains(input[k]),
        decreases stations@.len() - i,
    {
        let ghost before = station_views(named@);
        let ghost current = input[i as int];
        assert(current == stations@[i as int]@);
        if !stations[i].ssid.as_str().is_empty() {
            named.push(stations[i].duplicate());
            proof {
                let now = station_views(named@);
                assert(now =~= before.push(current));
                assert forall|k: int| 0 <= k < now.len() implies exists|j: int|
                    0 <= j < i + 1 && #[trigger] input[j] == (#[trigger] now[k]) by {
                    if k < before.len() {
                        assert(now[k] == before[k]);
                        let j = choose|j: int| 0 <= j < i && #[trigger] input[j] == before[k];
                        assert(input[j] == now[k]);
                    } else {
                        assert(input[i as int] == now[k]);
                    }
                }
                assert forall|a: int, b: int| 0 <= a < b < now.len() implies !station_lt(
                    #[trigger] now[a],
                    #[trigger] now[b],
                ) by {
                    assert(now[a] == before[a]);
                    if b < before.len() {
                        assert(now[b] == before[b]);
                    } else {
                        let j = choose|j: int| 0 <= j < i && #[trigger] input[j] == before[a];
                        assert(!station_lt(input[j], input[i as int]));
                    }
                }
                assert forall|a: int, b: int| 0 <= a < b < now.len() implies (#[trigger] now[a]).ssid
                    != (#[trigger] now[b]).ssid by {
                    assert(now[a] == before[a]);
                    if b < before.len() {
                        assert(now[b] == before[b]);
                    } else {
                        let j = choose|j: int| 0 <= j < i && #[trigger] input[j] == before[a];
                        assert(input[j].ssid != input[i as int].ssid);
                    }
                }
                assert forall|k: int| 0 <= k < now.len() implies (#[trigger] now[k]).ssid.len()
                    > 0 by {
                    if k < before.len() {
                        assert(now[k] == before[k]);
                    }
                }
                assert forall|k: int|
                    0 <= k < i + 1 && (#[trigger] input[k]).ssid.len() > 0 implies now.contains(
                    input[k],
                ) by {
                    if k == i {
                        assert(now[before.len() as int] == current);
                    } else {
                        let w = choose|w: int| 0 <= w < before.len() && before[w] == input[k];
                        assert(now[w] == before[w]);
                    }
                }
            }
        }
        i += 1;
    }
    proof {
        let now = station_views(named@);
        assert forall|k: int| 0 <= k < now.len() implies input.contains(#[trigger] now[k]) by {
            let j = choose|j: int| 0 <= j < i && #[trigger] input[j] == now[k];
            assert(input[j] == now[k]);
        }
    }
    named
}

/// Makes the station list of the candidates: sorts them by descending quality
/// and name, keeps the first station of each name, and drops those without a
/// name.
pub fn rank_stations(candidates: &Vec<Station>) -> (list: Vec<Station>)
    ensures
        is_station_list_of(station_views(list@), station_views(candidates@)),
{
    let sorted = sort_descending(candidates);
    let kept = dedup_by_ssid(&sorted);
    let list = drop_hidden(&kept);
    proof {
        let input = station_views(candidates@);
        let s = station_views(sorted@);
        let k = station_views(kept@);
        let out = station_views(list@);
        assert forall|i: int, j: int| 0 <= i < j < out.len() implies station_lt(
            #[trigger] out[j],
            #[trigger] out[i],
        ) by {
            station_lt_is_a_strict_total_order(out[i], out[j], out[i]);
        }
        assert forall|i: int| 0 <= i < out.len() implies input.contains(#[trigger] out[i]) by {
            assert(k.contains(out[i]));
            let a = choose|a: int| 0 <= a < k.len() && k[a] == out[i];
            assert(s.contains(k[a]));
            let b = choose|b: int| 0 <= b < s.len() && s[b] == k[a];
            assert(input.contains(s[b]));
        }
        assert forall|c: int|
            0 <= c < input.len() && (#[trigger] input[c]).ssid.len() > 0 implies represents(
            out,
            input[c],
        ) by {
            assert(s.contains(input[c]));
            let b = choose|b: int| 0 <= b < s.len() && s[b] == input[c];
            assert(represents(k, s[b]));
            let a = choose|a: int|
                0 <= a < k.len() && (#[trigger] k[a]).ssid == s[b].ssid && k[a].quality
                    >= s[b].quality;
            assert(out.contains(k[a]));
            let o = choose|o: int| 0 <= o < out.len() && out[o] == k[a];
            assert(out[o].ssid == input[c].ssid);
        }
    }
    list
}

/// The stations near the device: those of the access points that have a name
/// that is text, as a station list.
pub fn get_nearby_stations(access_points: &Vec<AccessPoint>) -> (stations: Vec<Station>)
    ensures
        is_station_list_of(
            station_views(stations@),
            named_stations(access_point_views(access_points@)),
        ),
{
    let ghost aps = access_point_views(access_points@);
    let mut candidates: Vec<Station> = Vec::new();
    let mut i: usize = 0;
    assert(aps.take(0) =~= Seq::empty());
    while i < access_points.len()
        invariant
            i <= access_points@.len(),
            aps == access_point_views(access_points@),
            station_views(candidates@) == named_stations(aps.take(i as int)),
        decreases access_points@.len() - i,
    {
        let ghost before = station_views(candidates@);
        assert(aps[i as int] == access_points@[i as int]@);
        assert(aps.take(i + 1).drop_last() =~= aps.take(i as int));
        match Station::try_from(&access_points[i]) {
            Ok(station) => {
                candidates.push(station);
                assert(station_views(candidates@) =~= before.push(station@));
            },
            Err(_) => {},
        }
        i += 1;
    }
    assert(aps.take(i as int) =~= aps);
    rank_stations(&candidates)
}

/// The values of a sequence of access points.
pub open spec fn access_point_views(access_points: Seq<AccessPoint>) -> Seq<AccessPointView> {
    access_points.map_values(|ap: AccessPoint| ap@)
}

/// The stations that the access points give, in their order; those whose name
/// is missing or no text give none.
pub open spec fn named_stations(access_points: Seq<AccessPointView>) -> Seq<StationView>
    decreases access_points.len(),
{
    if access_points.len() == 0 {
        Seq::empty()
    } else {
        let front = named_stations(access_points.drop_last());
        match station_of(access_points.last()) {
            Some(station) => front.push(station),
            None => front,
        }
    }
}

} // verus!
