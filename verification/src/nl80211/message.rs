//! Framing: the netlink header around every message, and the generic netlink
//! header that precedes the attributes.

use vstd::prelude::*;
use vstd::slice::{slice_subrange, slice_to_vec};
use crate::nl80211::attr::{
    all_fit, Attribute, attributes_fit, attributes_round_trip, AttributeView, encode_attributes,
    encode_fitting, parse_attributes, parse_attrs, views,
};
use crate::nl80211::consts::{NLMSG_DONE, NLMSG_ERROR};
use crate::nl80211::error::{DecodeError, EncodeError};
use crate::nl80211::wire::{
    align4, i32_value, push_padding, push_u16, push_u32, read_i32, stride, stride_within, u16_at,
    u16_le, u16_round_trip, u16_value, u32_at, u32_le, u32_round_trip, u32_value, zeros,
};

verus! {

/// Bytes of the netlink header: length, type, flags, sequence number, port id.
pub const NL_HEADER_LEN: usize = 16;

/// Bytes of the generic netlink header: command, version, two reserved bytes.
pub const GENL_HEADER_LEN: usize = 4;

/// The longest payload whose length, header included, fits the length field.
pub const MAX_NL_PAYLOAD: usize = 4294967279;

/// One netlink message: the fields of its header and its payload, unpadded.
#[derive(Debug, Clone, PartialEq, Eq)]
pub struct NlMessage {
    pub nl_type: u16,
    pub flags: u16,
    pub seq: u32,
    pub pid: u32,
    pub payload: Vec<u8>,
}

/// A netlink message as a value.
pub struct NlMessageView {
    pub nl_type: u16,
    pub flags: u16,
    pub seq: u32,
    pub pid: u32,
    pub payload: Seq<u8>,
}

impl View for NlMessage {
    type V = NlMessageView;

    open spec fn view(&self) -> NlMessageView {
        NlMessageView {
            nl_type: self.nl_type,
            flags: self.flags,
            seq: self.seq,
            pid: self.pid,
            payload: self.payload@,
        }
    }
}

impl NlMessageView {
    /// The payload is short enough for the length field.
    pub open spec fn fits(self) -> bool {
        self.payload.len() <= 4294967279
    }

    /// The message ends a dump.
    pub open spec fn is_done(self) -> bool {
        self.nl_type == NLMSG_DONE
    }

    /// The message is an acknowledgement or an error report.
    pub open spec fn is_error(self) -> bool {
        self.nl_type == NLMSG_ERROR
    }

    /// The message on the wire: length of header and payload, type, flags,
    /// sequence number, port id, payload, and zero bytes up to the next multiple
    /// of four.
    #[verifier::opaque]
    pub open spec fn encoded(self) -> Seq<u8> {
        let len = 16 + self.payload.len() as int;
        u32_le(len as u32) + u16_le(self.nl_type) + u16_le(self.flags) + u32_le(self.seq) + u32_le(
            self.pid,
        ) + self.payload + zeros(align4(len) - len)
    }
}

/// The values of a sequence of messages.
pub open spec fn message_views(messages: Seq<NlMessage>) -> Seq<NlMessageView> {
    messages.map_values(|m: NlMessage| m@)
}

/// The messages that a buffer holds, one after the other. Each starts with a
/// header of sixteen bytes whose length field counts header and payload and
/// stays inside the buffer.
pub open spec fn parse_batch(bytes: Seq<u8>) -> Result<Seq<NlMessageView>, DecodeError>
    decreases bytes.len(),
{
    if bytes.len() == 0 {
        Ok(Seq::empty())
    } else if bytes.len() < 16 {
        Err(DecodeError::Truncated)
    } else {
        let len = u32_value(bytes.subrange(0, 4)) as int;
        if len < 16 || len > bytes.len() {
            Err(DecodeError::BadLength)
        } else {
            let first = NlMessageView {
                nl_type: u16_value(bytes.subrange(4, 6)),
                flags: u16_value(bytes.subrange(6, 8)),
                seq: u32_value(bytes.subrange(8, 12)),
                pid: u32_value(bytes.subrange(12, 16)),
                payload: bytes.subrange(16, len),
            };
            match parse_batch(bytes.skip(stride(len, bytes.len() as int))) {
                Ok(rest) => Ok(seq![first] + rest),
                Err(e) => Err(e),
            }
        }
    }
}

/// `rest` with `done` in front of what it decoded.
pub open spec fn after_messages(
    done: Seq<NlMessageView>,
    rest: Result<Seq<NlMessageView>, DecodeError>,
) -> Result<Seq<NlMessageView>, DecodeError> {
    match rest {
        Ok(more) => Ok(done + more),
        Err(e) => Err(e),
    }
}

/// `result` is `expected`, messages taken by their values.
pub open spec fn batch_decoded_as(
    result: Result<Vec<NlMessage>, DecodeError>,
    expected: Result<Seq<NlMessageView>, DecodeError>,
) -> bool {
    match (result, expected) {
        (Ok(messages), Ok(values)) => message_views(messages@) == values,
        (Err(e), Err(f)) => e == f,
        _ => false,
    }
}

/// The error code that an acknowledgement or error report carries: the first
/// four bytes of its payload, as a signed value. Zero acknowledges.
pub open spec fn error_code(payload: Seq<u8>) -> Result<i32, DecodeError> {
    if payload.len() < 4 {
        Err(DecodeError::Truncated)
    } else {
        Ok(i32_value(payload.subrange(0, 4)))
    }
}

impl NlMessage {
    /// Whether the message ends a dump.
    pub fn is_done(&self) -> (done: bool)
        ensures
            done == self@.is_done(),
    {
        self.nl_type == NLMSG_DONE
    }

    /// Whether the message is an acknowledgement or an error report.
    pub fn is_error(&self) -> (error: bool)
        ensures
            error == self@.is_error(),
    {
        self.nl_type == NLMSG_ERROR
    }

    /// The error code of an acknowledgement or error report.
    pub fn get_error_code(&self) -> (result: Result<i32, DecodeError>)
        ensures
            result == error_code(self@.payload),
    {
        if self.payload.len() < 4 {
            return Err(DecodeError::Truncated);
        }
        read_i32(slice_subrange(self.payload.as_slice(), 0, 4))
    }

    /// The message as it goes on the wire, or an error if the payload is too
    /// long for the length field.
    pub fn to_bytes(&self) -> (result: Result<Vec<u8>, EncodeError>)
        ensures
            self@.fits() ==> result is Ok && result->Ok_0@ == self@.encoded(),
            !self@.fits() ==> result == Err::<Vec<u8>, EncodeError>(EncodeError::PayloadTooLong),
    {
        if self.payload.len() > MAX_NL_PAYLOAD {
            return Err(EncodeError::PayloadTooLong);
        }
        let len: usize = NL_HEADER_LEN + self.payload.len();
        let mut out: Vec<u8> = Vec::new();
        push_u32(&mut out, len as u32);
        push_u16(&mut out, self.nl_type);
        push_u16(&mut out, self.flags);
        push_u32(&mut out, self.seq);
        push_u32(&mut out, self.pid);
        let ghost head = out@;
        let mut i: usize = 0;
        while i < self.payload.len()
            invariant
                i <= self.payload@.len(),
                out@ == head + self.payload@.take(i as int),
            decreases self.payload@.len() - i,
        {
            out.push(self.payload[i]);
            assert(self.payload@.take(i + 1) =~= self.payload@.take(i as int).push(
                self.payload@[i as int],
            ));
            i += 1;
        }
        assert(self.payload@.take(i as int) =~= self.payload@);
        push_padding(&mut out, len);
        proof {
            reveal(NlMessageView::encoded);
            assert(out@ =~= self@.encoded());
        }
        Ok(out)
    }
}

/// Decodes the messages that one read from a socket delivered.
pub fn parse_messages(bytes: &[u8]) -> (result: Result<Vec<NlMessage>, DecodeError>)
    ensures
        batch_decoded_as(result, parse_batch(bytes@)),
{
    let mut messages: Vec<NlMessage> = Vec::new();
    let mut at: usize = 0;
    let total: usize = bytes.len();
    assert(bytes@.skip(0) =~= bytes@);
    assert(message_views(messages@) =~= Seq::empty());
    while at < total
        invariant
            at <= total == bytes@.len(),
            parse_batch(bytes@) == after_messages(
                message_views(messages@),
                parse_batch(bytes@.skip(at as int)),
            ),
        decreases total - at,
    {
        let ghost rest = bytes@.skip(at as int);
        let ghost done = message_views(messages@);
        if total - at < NL_HEADER_LEN {
            return Err(DecodeError::Truncated);
        }
        let raw_len: u32 = u32_at(bytes, at);
        let nl_type: u16 = u16_at(bytes, at + 4);
        let flags: u16 = u16_at(bytes, at + 6);
        let seq: u32 = u32_at(bytes, at + 8);
        let pid: u32 = u32_at(bytes, at + 12);
        assert(rest.subrange(0, 4) =~= bytes@.subrange(at as int, at + 4));
        assert(rest.subrange(4, 6) =~= bytes@.subrange(at + 4, at + 6));
        assert(rest.subrange(6, 8) =~= bytes@.subrange(at + 6, at + 8));
        assert(rest.subrange(8, 12) =~= bytes@.subrange(at + 8, at + 12));
        assert(rest.subrange(12, 16) =~= bytes@.subrange(at + 12, at + 16));
        if raw_len < 16 || raw_len as u64 > (total - at) as u64 {
            return Err(DecodeError::BadLength);
        }
        let len: usize = raw_len as usize;
        let payload = slice_to_vec(slice_subrange(bytes, at + NL_HEADER_LEN, at + len));
        assert(payload@ =~= rest.subrange(16, len as int));
        let step: usize = stride_within(len, total - at);
        messages.push(NlMessage { nl_type, flags, seq, pid, payload });
        proof {
            let first = NlMessageView { nl_type, flags, seq, pid, payload: payload@ };
            assert(rest.skip(step as int) =~= bytes@.skip(at + step));
            assert(message_views(messages@) =~= done + seq![first]);
            let tail = parse_batch(bytes@.skip(at + step));
            match tail {
                Ok(more) => {
                    assert(done + (seq![first] + more) =~= (done + seq![first]) + more);
                },
                Err(_) => {},
            }
        }
        at = at + step;
    }
    assert(bytes@.skip(at as int) =~= Seq::<u8>::empty());
    assert(message_views(messages@) + Seq::<NlMessageView>::empty() =~= message_views(messages@));
    Ok(messages)
}

/// A generic netlink message: command, protocol version and attributes.
#[derive(Debug, Clone, PartialEq, Eq)]
pub struct GenlMessage {
    pub cmd: u8,
    pub version: u8,
    pub attrs: Vec<Attribute>,
}

/// A generic netlink message as a value.
pub struct GenlMessageView {
    pub cmd: u8,
    pub version: u8,
    pub attrs: Seq<AttributeView>,
}

impl View for GenlMessage {
    type V = GenlMessageView;

    open spec fn view(&self) -> GenlMessageView {
        GenlMessageView { cmd: self.cmd, version: self.version, attrs: views(self.attrs@) }
    }
}

impl GenlMessageView {
    /// Every attribute fits its length field.
    pub open spec fn fits(self) -> bool {
        all_fit(self.attrs)
    }

    /// The message as the payload of a netlink message: command, version, two
    /// zero bytes, and the attributes.
    pub open spec fn encoded(self) -> Seq<u8> {
        seq![self.cmd, self.version, 0u8, 0u8] + encode_attributes(self.attrs)
    }
}

/// The generic netlink message that a payload holds: a header of four bytes,
/// of which the last two are not looked at, and attributes behind it.
pub open spec fn parse_genl(payload: Seq<u8>) -> Result<GenlMessageView, DecodeError> {
    if payload.len() < 4 {
        Err(DecodeError::Truncated)
    } else {
        match parse_attributes(payload.skip(4)) {
            Ok(attrs) => Ok(GenlMessageView { cmd: payload[0], version: payload[1], attrs }),
            Err(e) => Err(e),
        }
    }
}

/// `result` is `expected`, the message taken by its value.
pub open spec fn genl_decoded_as(
    result: Result<GenlMessage, DecodeError>,
    expected: Result<GenlMessageView, DecodeError>,
) -> bool {
    match (result, expected) {
        (Ok(message), Ok(value)) => message@ == value,
        (Err(e), Err(f)) => e == f,
        _ => false,
    }
}

impl GenlMessage {
    /// Decodes the payload of a netlink message.
    pub fn parse(payload: &[u8]) -> (result: Result<GenlMessage, DecodeError>)
        ensures
            genl_decoded_as(result, parse_genl(payload@)),
    {
        let total: usize = payload.len();
        if total < GENL_HEADER_LEN {
            return Err(DecodeError::Truncated);
        }
        let body = slice_subrange(payload, GENL_HEADER_LEN, total);
        assert(body@ =~= payload@.skip(4));
        match parse_attrs(body) {
            Ok(attrs) => Ok(GenlMessage { cmd: payload[0], version: payload[1], attrs }),
            Err(e) => Err(e),
        }
    }

    /// The message, whose attributes all fit, as the payload of a netlink
    /// message.
    pub(crate) fn encode(&self) -> (bytes: Vec<u8>)
        requires
            self@.fits(),
        ensures
            bytes@ == self@.encoded(),
    {
        let mut out: Vec<u8> = Vec::new();
        out.push(self.cmd);
        out.push(self.version);
        out.push(0u8);
        out.push(0u8);
        assert(out@ =~= seq![self.cmd, self.version, 0u8, 0u8]);
        encode_fitting(&self.attrs, &mut out);
        out
    }

    /// The message as the payload of a netlink message, or an error if an
    /// attribute is too long for its length field.
    pub fn to_bytes(&self) -> (result: Result<Vec<u8>, EncodeError>)
        ensures
            self@.fits() ==> result is Ok && result->Ok_0@ == self@.encoded(),
            !self@.fits() ==> result == Err::<Vec<u8>, EncodeError>(EncodeError::PayloadTooLong),
    {
        if attributes_fit(&self.attrs) {
            Ok(self.encode())
        } else {
            Err(EncodeError::PayloadTooLong)
        }
    }
}

/// Where the parts of an encoded message lie when `tail` follows it.
proof fn encoded_message_layout(first: NlMessageView, tail: Seq<u8>)
    requires
        first.fits(),
    ensures
        ({
            let len = 16 + first.payload.len() as int;
            let bytes = first.encoded() + tail;
            &&& first.encoded().len() == align4(len)
            &&& len <= align4(len) < len + 4
            &&& bytes.subrange(0, 4) == u32_le(len as u32)
            &&& bytes.subrange(4, 6) == u16_le(first.nl_type)
            &&& bytes.subrange(6, 8) == u16_le(first.flags)
            &&& bytes.subrange(8, 12) == u32_le(first.seq)
            &&& bytes.subrange(12, 16) == u32_le(first.pid)
            &&& bytes.subrange(16, len) == first.payload
            &&& bytes.skip(align4(len)) == tail
        }),
{
    reveal(NlMessageView::encoded);
    let len = 16 + first.payload.len() as int;
    let bytes = first.encoded() + tail;
    assert(len <= align4(len) < len + 4);
    assert(zeros(align4(len) - len).len() == align4(len) - len);
    u32_round_trip(len as u32);
    u16_round_trip(first.nl_type);
    u16_round_trip(first.flags);
    u32_round_trip(first.seq);
    u32_round_trip(first.pid);
    assert(first.encoded().len() == align4(len));
    assert(bytes.subrange(0, 4) =~= u32_le(len as u32));
    assert(bytes.subrange(4, 6) =~= u16_le(first.nl_type));
    assert(bytes.subrange(6, 8) =~= u16_le(first.flags));
    assert(bytes.subrange(8, 12) =~= u32_le(first.seq));
    assert(bytes.subrange(12, 16) =~= u32_le(first.pid));
    assert(bytes.subrange(16, len) =~= first.payload);
    assert(bytes.skip(align4(len)) =~= tail);
}

/// The messages of a sequence on the wire, one after the other.
pub open spec fn encode_batch(messages: Seq<NlMessageView>) -> Seq<u8>
    decreases messages.len(),
{
    if messages.len() == 0 {
        Seq::empty()
    } else {
        messages[0].encoded() + encode_batch(messages.skip(1))
    }
}

/// Every message of the sequence fits its length field.
pub open spec fn all_messages_fit(messages: Seq<NlMessageView>) -> bool {
    forall|i: int| 0 <= i < messages.len() ==> (#[trigger] messages[i]).fits()
}

/// Parsing a buffer that starts with an encoded message yields that message
/// and goes on with what follows it.
proof fn parse_encoded_message(first: NlMessageView, tail: Seq<u8>)
    requires
        first.fits(),
    ensures
        parse_batch(first.encoded() + tail) == after_messages(seq![first], parse_batch(tail)),
{
    let len = 16 + first.payload.len() as int;
    let bytes = first.encoded() + tail;
    encoded_message_layout(first, tail);
    u32_round_trip(len as u32);
    u16_round_trip(first.nl_type);
    u16_round_trip(first.flags);
    u32_round_trip(first.seq);
    u32_round_trip(first.pid);
    assert(bytes.len() == align4(len) + tail.len());
    assert(stride(len, bytes.len() as int) == align4(len));
}

/// Decoding the bytes of encoded messages gives the messages back.
pub proof fn batch_round_trip(messages: Seq<NlMessageView>)
    requires
        all_messages_fit(messages),
    ensures
        parse_batch(encode_batch(messages)) == Ok::<Seq<NlMessageView>, DecodeError>(messages),
    decreases messages.len(),
{
    if messages.len() == 0 {
        assert(messages =~= Seq::empty());
    } else {
        let first = messages[0];
        let rest = messages.skip(1);
        assert(first.fits());
        assert forall|i: int| 0 <= i < rest.len() implies (#[trigger] rest[i]).fits() by {
            assert(rest[i] == messages[i + 1]);
        }
        batch_round_trip(rest);
        parse_encoded_message(first, encode_batch(rest));
        assert(encode_batch(messages) == first.encoded() + encode_batch(rest));
        assert(seq![first] + rest =~= messages);
        assert(after_messages(seq![first], parse_batch(encode_batch(rest))) == Ok::<
            Seq<NlMessageView>,
            DecodeError,
        >(seq![first] + rest));
    }
}

/// Decoding the payload of an encoded generic netlink message gives the
/// message back.
pub proof fn genl_round_trip(message: GenlMessageView)
    requires
        message.fits(),
    ensures
        parse_genl(message.encoded()) == Ok::<GenlMessageView, DecodeError>(message),
{
    let bytes = message.encoded();
    attributes_round_trip(message.attrs);
    assert(bytes.skip(4) =~= encode_attributes(message.attrs));
}

} // verus!
