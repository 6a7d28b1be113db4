//! Information elements: the chain of id, length and payload that a beacon or
//! probe response carries, where the network's name is found.

use byteorder::ReadBytesExt;
use vstd::prelude::*;
use vstd::slice::{slice_subrange, slice_to_vec};

verus! {

/// Id of the element that carries the network name.
pub const WLAN_EID_SSID: u8 = 0;

/// `byteorder::ReadBytesExt::read_u8` on a `std::io::Cursor` over `buffer`
/// that stands at `position`: the byte there, or nothing at or behind the end.
/// Believed of byteorder and the standard library, not proved here.
#[verifier::external_body]
fn read_u8(buffer: &[u8], position: usize) -> (byte: Option<u8>)
    ensures
        position < buffer@.len() ==> byte == Some(buffer@[position as int]),
        position >= buffer@.len() ==> byte is None,
{
    let mut cursor = std::io::Cursor::new(buffer);
    cursor.set_position(position as u64);
    cursor.read_u8().ok()
}

/// The element that starts at `at`: its id and its payload. There is none
/// where fewer than two bytes remain, or where the length byte asks for more
/// than what remains behind it.
pub open spec fn element_at(buffer: Seq<u8>, at: int) -> Option<(u8, Seq<u8>)> {
    if 0 <= at && at + 2 <= buffer.len() && at + 2 + buffer[at + 1] <= buffer.len() {
        Some((buffer[at], buffer.subrange(at + 2, at + 2 + buffer[at + 1])))
    } else {
        None
    }
}

/// The payload of the first element with the given id in the chain that
/// starts at `at`. The search ends without a result at the first place where
/// no whole element stands.
pub open spec fn find_element(buffer: Seq<u8>, at: int, id: u8) -> Option<Seq<u8>>
    decreases buffer.len() - at,
{
    match element_at(buffer, at) {
        None => None,
        Some((eid, data)) => if eid == id {
            Some(data)
        } else {
            find_element(buffer, at + 2 + data.len(), id)
        },
    }
}

/// The network name that the elements carry; empty where they carry none.
pub open spec fn ssid_of(buffer: Seq<u8>) -> Seq<u8> {
    match find_element(buffer, 0, WLAN_EID_SSID) {
        Some(data) => data,
        None => Seq::empty(),
    }
}

/// Reads the element that starts at `position`.
pub fn extract_element(buffer: &[u8], position: usize) -> (element: Option<(u8, Vec<u8>)>)
    ensures
        element is Some <==> element_at(buffer@, position as int) is Some,
        element matches Some((eid, data)) ==> element_at(buffer@, position as int) == Some(
            (eid, data@),
        ),
{
    let total: usize = buffer.len();
    let eid: u8 = match read_u8(buffer, position) {
        Some(byte) => byte,
        None => {
            return None;
        },
    };
    let size: usize = match read_u8(buffer, position + 1) {
        Some(byte) => byte as usize,
        None => {
            return None;
        },
    };
    let start: usize = position + 2;
    if size > total - start {
        return None;
    }
    let data = slice_to_vec(slice_subrange(buffer, start, start + size));
    Some((eid, data))
}

/// Walks the elements from the start of `buffer` and returns the payload of
/// the first that carries the network name, or no bytes if none does.
pub fn extract_ssid(buffer: &[u8]) -> (ssid: Vec<u8>)
    ensures
        ssid@ == ssid_of(buffer@),
{
    let mut position: usize = 0;
    let total: usize = buffer.len();
    loop
        invariant
            position <= buffer@.len() == total,
            find_element(buffer@, 0, WLAN_EID_SSID) == find_element(
                buffer@,
                position as int,
                WLAN_EID_SSID,
            ),
        decreases buffer@.len() - position,
    {
        match extract_element(buffer, position) {
            None => {
                return Vec::new();
            },
            Some((eid, data)) => {
                if eid == WLAN_EID_SSID {
                    return data;
                }
                position = position + 2 + data.len();
            },
        }
    }
}

} // verus!
