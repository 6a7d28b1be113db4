//! Attributes: the type-length-value records that fill a generic netlink
//! message, and that may hold further attributes in their payload.

use vstd::prelude::*;
use vstd::slice::{slice_subrange, slice_to_vec};
use crate::nl80211::error::{DecodeError, EncodeError};
use crate::nl80211::wire::{
    align4, i32_value, push_padding, push_u16, push_u32, read_i32, read_u32, read_u64, stride,
    stride_within, u16_at, u16_le, u16_round_trip, u16_value, u32_le, u32_round_trip, u32_value,
    u64_value, zeros,
};
use crate::text::{text_of, utf8_to_string};

verus! {

/// Bytes of an attribute's header: length and type, two bytes each.
pub const ATTR_HEADER_LEN: usize = 4;

/// The longest payload whose length, header included, fits the length field.
pub const MAX_ATTR_PAYLOAD: usize = 65531;

/// Type tags are below this: the two bits above are flags.
pub const TAG_LIMIT: u16 = 16384;

/// Flag in the type field: the payload is in network byte order.
pub const NETWORK_ORDER_FLAG: u16 = 16384;

/// Flag in the type field: the payload holds nested attributes.
pub const NESTED_FLAG: u16 = 32768;

/// One attribute as it was framed: the type field, flags included, and the
/// payload without its padding.
#[derive(Debug, Clone, PartialEq, Eq)]
pub struct Attribute {
    pub nla_type: u16,
    pub payload: Vec<u8>,
}

/// An attribute as a value.
pub struct AttributeView {
    pub nla_type: u16,
    pub payload: Seq<u8>,
}

impl View for Attribute {
    type V = AttributeView;

    open spec fn view(&self) -> AttributeView {
        AttributeView { nla_type: self.nla_type, payload: self.payload@ }
    }
}

impl AttributeView {
    /// The type tag: the type field without its two flag bits.
    pub open spec fn kind(self) -> u16 {
        self.nla_type % 16384
    }

    /// The flag that announces nested attributes in the payload.
    pub open spec fn nested(self) -> bool {
        self.nla_type >= NESTED_FLAG
    }

    /// The flag that announces a payload in network byte order.
    pub open spec fn network_order(self) -> bool {
        self.nla_type / 16384 % 2 == 1
    }

    /// The payload is short enough for the length field.
    pub open spec fn fits(self) -> bool {
        self.payload.len() <= 65531
    }

    /// The attribute on the wire: length of header and payload, type field,
    /// payload, and zero bytes up to the next multiple of four.
    #[verifier::opaque]
    pub open spec fn encoded(self) -> Seq<u8> {
        let len = 4 + self.payload.len() as int;
        u16_le(len as u16) + u16_le(self.nla_type) + self.payload + zeros(align4(len) - len)
    }
}

/// The type field made of a tag and the two flags.
pub open spec fn type_field(nested: bool, network_order: bool, kind: u16) -> u16 {
    (kind + (if network_order { 16384int } else { 0 }) + (if nested { 32768int } else { 0 })) as u16
}

/// The values of a sequence of attributes.
pub open spec fn views(attrs: Seq<Attribute>) -> Seq<AttributeView> {
    attrs.map_values(|a: Attribute| a@)
}

/// A sequence of attributes on the wire: one after the other.
pub open spec fn encode_attributes(attrs: Seq<AttributeView>) -> Seq<u8>
    decreases attrs.len(),
{
    if attrs.len() == 0 {
        Seq::empty()
    } else {
        attrs[0].encoded() + encode_attributes(attrs.skip(1))
    }
}

/// Every attribute of the sequence fits the length field.
pub open spec fn all_fit(attrs: Seq<AttributeView>) -> bool {
    forall|i: int| 0 <= i < attrs.len() ==> (#[trigger] attrs[i]).fits()
}

/// The attributes that a buffer holds. An empty buffer holds none. Otherwise
/// the buffer starts with a header of four bytes, whose length field counts
/// header and payload and stays inside the buffer, and the rest follows after
/// the padding.
pub open spec fn parse_attributes(bytes: Seq<u8>) -> Result<Seq<AttributeView>, DecodeError>
    decreases bytes.len(),
{
    if bytes.len() == 0 {
        Ok(Seq::empty())
    } else if bytes.len() < 4 {
        Err(DecodeError::Truncated)
    } else {
        let len = u16_value(bytes.subrange(0, 2)) as int;
        if len < 4 || len > bytes.len() {
            Err(DecodeError::BadLength)
        } else {
            let first = AttributeView {
                nla_type: u16_value(bytes.subrange(2, 4)),
                payload: bytes.subrange(4, len),
            };
            match parse_attributes(bytes.skip(stride(len, bytes.len() as int))) {
                Ok(rest) => Ok(seq![first] + rest),
                Err(e) => Err(e),
            }
        }
    }
}

/// `rest` with `done` in front of what it decoded.
pub open spec fn after(
    done: Seq<AttributeView>,
    rest: Result<Seq<AttributeView>, DecodeError>,
) -> Result<Seq<AttributeView>, DecodeError> {
    match rest {
        Ok(more) => Ok(done + more),
        Err(e) => Err(e),
    }
}

/// The attribute that a lookup by tag finds: the last one with that tag.
pub open spec fn lookup(attrs: Seq<AttributeView>, kind: u16) -> Option<AttributeView>
    decreases attrs.len(),
{
    if attrs.len() == 0 {
        None
    } else if attrs.last().kind() == kind {
        Some(attrs.last())
    } else {
        lookup(attrs.drop_last(), kind)
    }
}

/// A payload read as text: all but its last byte, which ends the string.
pub open spec fn text_value(payload: Seq<u8>) -> Result<Seq<char>, DecodeError> {
    if payload.len() == 0 {
        Err(DecodeError::InvalidText)
    } else {
        match text_of(payload.drop_last()) {
            Some(text) => Ok(text),
            None => Err(DecodeError::InvalidText),
        }
    }
}

/// A payload of exactly `width` bytes, or the error for another width.
pub open spec fn exact<T>(payload: Seq<u8>, width: int, value: T) -> Result<T, DecodeError> {
    if payload.len() == width {
        Ok(value)
    } else {
        Err(DecodeError::WrongWidth)
    }
}

impl Attribute {
    /// An attribute with the given flags, tag and payload. The tag must leave
    /// the flag bits free and the payload must fit the length field.
    pub fn new(nested: bool, network_order: bool, kind: u16, payload: Vec<u8>) -> (result: Result<
        Attribute,
        EncodeError,
    >)
        ensures
            kind >= 16384 ==> result == Err::<Attribute, EncodeError>(EncodeError::TagTooLarge),
            kind < 16384 && payload@.len() > 65531 ==> result == Err::<Attribute, EncodeError>(
                EncodeError::PayloadTooLong,
            ),
            kind < 16384 && payload@.len() <= 65531 ==> result is Ok && result->Ok_0@
                == (AttributeView {
                nla_type: type_field(nested, network_order, kind),
                payload: payload@,
            }),
    {
        if kind >= TAG_LIMIT {
            return Err(EncodeError::TagTooLarge);
        }
        if payload.len() > MAX_ATTR_PAYLOAD {
            return Err(EncodeError::PayloadTooLong);
        }
        let order_bit: u16 = if network_order {
            NETWORK_ORDER_FLAG
        } else {
            0
        };
        let nested_bit: u16 = if nested {
            NESTED_FLAG
        } else {
            0
        };
        Ok(Attribute { nla_type: kind + order_bit + nested_bit, payload })
    }

    /// An attribute that carries one unsigned 32-bit value.
    pub fn with_u32(nested: bool, network_order: bool, kind: u16, value: u32) -> (result: Result<
        Attribute,
        EncodeError,
    >)
        ensures
            kind >= 16384 ==> result == Err::<Attribute, EncodeError>(EncodeError::TagTooLarge),
            kind < 16384 ==> result is Ok && result->Ok_0@ == (AttributeView {
                nla_type: type_field(nested, network_order, kind),
                payload: u32_le(value),
            }),
    {
        let mut payload: Vec<u8> = Vec::new();
        push_u32(&mut payload, value);
        proof {
            u32_round_trip(value);
            assert(payload@ =~= u32_le(value));
        }
        Attribute::new(nested, network_order, kind, payload)
    }

    /// The type tag.
    pub fn kind(&self) -> (kind: u16)
        ensures
            kind == self@.kind(),
    {
        self.nla_type % TAG_LIMIT
    }

    /// Whether the nested flag is set.
    pub fn is_nested(&self) -> (nested: bool)
        ensures
            nested == self@.nested(),
    {
        self.nla_type >= NESTED_FLAG
    }

    /// Whether the network byte order flag is set.
    pub fn is_network_order(&self) -> (flag: bool)
        ensures
            flag == self@.network_order(),
    {
        self.nla_type / TAG_LIMIT % 2 == 1
    }

    /// The payload as an unsigned 32-bit value.
    pub fn get_u32(&self) -> (result: Result<u32, DecodeError>)
        ensures
            result == exact(self@.payload, 4, u32_value(self@.payload)),
    {
        read_u32(self.payload.as_slice())
    }

    /// The payload as a signed 32-bit value.
    pub fn get_i32(&self) -> (result: Result<i32, DecodeError>)
        ensures
            result == exact(self@.payload, 4, i32_value(self@.payload)),
    {
        read_i32(self.payload.as_slice())
    }

    /// The payload as an unsigned 64-bit value.
    pub fn get_u64(&self) -> (result: Result<u64, DecodeError>)
        ensures
            result == exact(self@.payload, 8, u64_value(self@.payload)),
    {
        read_u64(self.payload.as_slice())
    }

    /// The payload as text.
    pub fn get_text(&self) -> (result: Result<String, DecodeError>)
        ensures
            match (result, text_value(self@.payload)) {
                (Ok(text), Ok(expected)) => text@ == expected,
                (Err(e), Err(expected)) => e == expected,
                _ => false,
            },
    {
        let len: usize = self.payload.len();
        if len == 0 {
            return Err(DecodeError::InvalidText);
        }
        let body = slice_subrange(self.payload.as_slice(), 0, len - 1);
        assert(body@ =~= self@.payload.drop_last());
        match utf8_to_string(body) {
            Some(text) => Ok(text),
            None => Err(DecodeError::InvalidText),
        }
    }

    /// The payload read as a sequence of attributes.
    pub fn get_nested(&self) -> (result: Result<Vec<Attribute>, DecodeError>)
        ensures
            decoded_as(result, parse_attributes(self@.payload)),
    {
        parse_attrs(self.payload.as_slice())
    }

    /// Appends the attribute as it goes on the wire.
    pub(crate) fn encode_into(&self, out: &mut Vec<u8>)
        requires
            self@.fits(),
        ensures
            final(out)@ == old(out)@ + self@.encoded(),
    {
        let len: usize = ATTR_HEADER_LEN + self.payload.len();
        push_u16(out, len as u16);
        push_u16(out, self.nla_type);
        let mut i: usize = 0;
        while i < self.payload.len()
            invariant
                i <= self.payload@.len(),
                len == 4 + self.payload@.len() <= 65535,
                out@ == old(out)@ + u16_le(len as u16) + u16_le(self.nla_type)
                    + self.payload@.take(i as int),
            decreases self.payload@.len() - i,
        {
            out.push(self.payload[i]);
            assert(self.payload@.take(i + 1) =~= self.payload@.take(i as int).push(
                self.payload@[i as int],
            ));
            i += 1;
        }
        assert(self.payload@.take(i as int) =~= self.payload@);
        push_padding(out, len);
        proof {
            reveal(AttributeView::encoded);
            assert(out@ =~= old(out)@ + self@.encoded());
        }
    }
}

/// `result` is `expected`, attributes taken by their values.
pub open spec fn decoded_as(
    result: Result<Vec<Attribute>, DecodeError>,
    expected: Result<Seq<AttributeView>, DecodeError>,
) -> bool {
    match (result, expected) {
        (Ok(attrs), Ok(values)) => views(attrs@) == values,
        (Err(e), Err(f)) => e == f,
        _ => false,
    }
}

/// Decodes the attributes that `bytes` hold.
pub fn parse_attrs(bytes: &[u8]) -> (result: Result<Vec<Attribute>, DecodeError>)
    ensures
        decoded_as(result, parse_attributes(bytes@)),
{
    let mut attrs: Vec<Attribute> = Vec::new();
    let mut at: usize = 0;
    let total: usize = bytes.len();
    assert(bytes@.skip(0) =~= bytes@);
    assert(views(attrs@) =~= Seq::empty());
    while at < total
        invariant
            at <= total == bytes@.len(),
            parse_attributes(bytes@) == after(
                views(attrs@),
                parse_attributes(bytes@.skip(at as int)),
            ),
        decreases total - at,
    {
        let ghost rest = bytes@.skip(at as int);
        let ghost done = views(attrs@);
        if total - at < ATTR_HEADER_LEN {
            return Err(DecodeError::Truncated);
        }
        let len: usize = u16_at(bytes, at) as usize;
        let nla_type: u16 = u16_at(bytes, at + 2);
        assert(rest.subrange(0, 2) =~= bytes@.subrange(at as int, at + 2));
        assert(rest.subrange(2, 4) =~= bytes@.subrange(at + 2, at + 4));
        if len < ATTR_HEADER_LEN || len > total - at {
            return Err(DecodeError::BadLength);
        }
        let payload = slice_to_vec(slice_subrange(bytes, at + ATTR_HEADER_LEN, at + len));
        assert(payload@ =~= rest.subrange(4, len as int));
        let step: usize = stride_within(len, total - at);
        attrs.push(Attribute { nla_type, payload });
        proof {
            let first = AttributeView { nla_type, payload: payload@ };
            assert(rest.skip(step as int) =~= bytes@.skip(at + step));
            assert(views(attrs@) =~= done + seq![first]);
            let tail = parse_attributes(bytes@.skip(at + step));
            match tail {
                Ok(more) => {
                    assert(done + (seq![first] + more) =~= (done + seq![first]) + more);
                },
                Err(_) => {},
            }
        }
        at = at + step;
    }
    assert(bytes@.skip(at as int) =~= Seq::<u8>::empty());
    assert(views(attrs@) + Seq::<AttributeView>::empty() =~= views(attrs@));
    Ok(attrs)
}

/// Whether every attribute fits its length field.
pub fn attributes_fit(attrs: &Vec<Attribute>) -> (fit: bool)
    ensures
        fit == all_fit(views(attrs@)),
{
    let ghost all = views(attrs@);
    let mut i: usize = 0;
    while i < attrs.len()
        invariant
            i <= attrs@.len(),
            all == views(attrs@),
            forall|k: int| 0 <= k < i ==> (#[trigger] all[k]).fits(),
        decreases attrs@.len() - i,
    {
        assert(all[i as int] == attrs@[i as int]@);
        if attrs[i].payload.len() > MAX_ATTR_PAYLOAD {
            return false;
        }
        i += 1;
    }
    true
}

/// Appends the attributes, which all fit, one after the other.
pub(crate) fn encode_fitting(attrs: &Vec<Attribute>, out: &mut Vec<u8>)
    requires
        all_fit(views(attrs@)),
    ensures
        final(out)@ == old(out)@ + encode_attributes(views(attrs@)),
{
    let mut i: usize = 0;
    let ghost all = views(attrs@);
    assert(all.skip(0) =~= all);
    while i < attrs.len()
        invariant
            i <= attrs@.len(),
            all == views(attrs@),
            all_fit(all),
            out@ + encode_attributes(all.skip(i as int)) == old(out)@ + encode_attributes(all),
        decreases attrs@.len() - i,
    {
        let ghost before = out@;
        assert(all[i as int] == attrs@[i as int]@);
        attrs[i].encode_into(out);
        proof {
            let rest = all.skip(i as int);
            assert(rest[0] == all[i as int]);
            assert(rest.skip(1) =~= all.skip(i + 1));
            assert(before + (rest[0].encoded() + encode_attributes(rest.skip(1))) =~= (before
                + rest[0].encoded()) + encode_attributes(rest.skip(1)));
        }
        i += 1;
    }
    assert(all.skip(i as int) =~= Seq::<AttributeView>::empty());
    assert(out@ + Seq::<u8>::empty() =~= out@);
}

/// Appends the attributes as they go on the wire, one after the other. If
/// one of them is too long for its length field, nothing is appended.
pub fn encode_attrs(attrs: &Vec<Attribute>, out: &mut Vec<u8>) -> (result: Result<(), EncodeError>)
    ensures
        all_fit(views(attrs@)) ==> result is Ok && final(out)@ == old(out)@ + encode_attributes(
            views(attrs@),
        ),
        !all_fit(views(attrs@)) ==> result == Err::<(), EncodeError>(EncodeError::PayloadTooLong)
            && final(out)@ == old(out)@,
{
    if !attributes_fit(attrs) {
        return Err(EncodeError::PayloadTooLong);
    }
    encode_fitting(attrs, out);
    Ok(())
}

/// Finds the attribute with the given tag; where several have it, the last.
pub fn get_attribute(attrs: &Vec<Attribute>, kind: u16) -> (found: Option<&Attribute>)
    ensures
        found is Some <==> lookup(views(attrs@), kind) is Some,
        found matches Some(a) ==> Some(a@) == lookup(views(attrs@), kind),
{
    let mut i: usize = attrs.len();
    let ghost all = views(attrs@);
    assert(all.take(i as int) =~= all);
    while i > 0
        invariant
            i <= attrs@.len(),
            all == views(attrs@),
            lookup(all, kind) == lookup(all.take(i as int), kind),
        decreases i,
    {
        let ghost prefix = all.take(i as int);
        assert(prefix.last() == attrs@[i - 1]@);
        assert(prefix.drop_last() =~= all.take(i - 1));
        if attrs[i - 1].kind() == kind {
            return Some(&attrs[i - 1]);
        }
        i -= 1;
    }
    None
}

/// The payload of the attribute with the given tag, which must be there.
pub open spec fn required(attrs: Seq<AttributeView>, kind: u16) -> Result<Seq<u8>, DecodeError> {
    match lookup(attrs, kind) {
        Some(found) => Ok(found.payload),
        None => Err(DecodeError::MissingAttribute),
    }
}

/// The attribute with the given tag as an unsigned 32-bit value.
pub open spec fn u32_attribute(attrs: Seq<AttributeView>, kind: u16) -> Result<u32, DecodeError> {
    match required(attrs, kind) {
        Ok(payload) => exact(payload, 4, u32_value(payload)),
        Err(e) => Err(e),
    }
}

/// The attribute with the given tag as a signed 32-bit value.
pub open spec fn i32_attribute(attrs: Seq<AttributeView>, kind: u16) -> Result<i32, DecodeError> {
    match required(attrs, kind) {
        Ok(payload) => exact(payload, 4, i32_value(payload)),
        Err(e) => Err(e),
    }
}

/// The attribute with the given tag as an unsigned 64-bit value.
pub open spec fn u64_attribute(attrs: Seq<AttributeView>, kind: u16) -> Result<u64, DecodeError> {
    match required(attrs, kind) {
        Ok(payload) => exact(payload, 8, u64_value(payload)),
        Err(e) => Err(e),
    }
}

/// The attribute with the given tag as text.
pub open spec fn text_attribute(attrs: Seq<AttributeView>, kind: u16) -> Result<
    Seq<char>,
    DecodeError,
> {
    match required(attrs, kind) {
        Ok(payload) => text_value(payload),
        Err(e) => Err(e),
    }
}

/// The attributes nested in the attribute with the given tag.
pub open spec fn nested_attributes(attrs: Seq<AttributeView>, kind: u16) -> Result<
    Seq<AttributeView>,
    DecodeError,
> {
    match required(attrs, kind) {
        Ok(payload) => parse_attributes(payload),
        Err(e) => Err(e),
    }
}

/// Reads the attribute with the given tag as an unsigned 32-bit value.
pub fn get_attr_u32(attrs: &Vec<Attribute>, kind: u16) -> (result: Result<u32, DecodeError>)
    ensures
        result == u32_attribute(views(attrs@), kind),
{
    match get_attribute(attrs, kind) {
        Some(found) => found.get_u32(),
        None => Err(DecodeError::MissingAttribute),
    }
}

/// Reads the attribute with the given tag as a signed 32-bit value.
pub fn get_attr_i32(attrs: &Vec<Attribute>, kind: u16) -> (result: Result<i32, DecodeError>)
    ensures
        result == i32_attribute(views(attrs@), kind),
{
    match get_attribute(attrs, kind) {
        Some(found) => found.get_i32(),
        None => Err(DecodeError::MissingAttribute),
    }
}

/// Reads the attribute with the given tag as an unsigned 64-bit value.
pub fn get_attr_u64(attrs: &Vec<Attribute>, kind: u16) -> (result: Result<u64, DecodeError>)
    ensures
        result == u64_attribute(views(attrs@), kind),
{
    match get_attribute(attrs, kind) {
        Some(found) => found.get_u64(),
        None => Err(DecodeError::MissingAttribute),
    }
}

/// Reads the attribute with the given tag as text.
pub fn get_attr_text(attrs: &Vec<Attribute>, kind: u16) -> (result: Result<String, DecodeError>)
    ensures
        match (result, text_attribute(views(attrs@), kind)) {
            (Ok(text), Ok(expected)) => text@ == expected,
            (Err(e), Err(expected)) => e == expected,
            _ => false,
        },
{
    match get_attribute(attrs, kind) {
        Some(found) => found.get_text(),
        None => Err(DecodeError::MissingAttribute),
    }
}

/// Hands out the payload of the attribute with the given tag.
pub fn get_attr_bytes(attrs: &Vec<Attribute>, kind: u16) -> (result: Result<&Vec<u8>, DecodeError>)
    ensures
        match (result, required(views(attrs@), kind)) {
            (Ok(payload), Ok(expected)) => payload@ == expected,
            (Err(e), Err(expected)) => e == expected,
            _ => false,
        },
{
    match get_attribute(attrs, kind) {
        Some(found) => Ok(&found.payload),
        None => Err(DecodeError::MissingAttribute),
    }
}

/// Reads the payload of the attribute with the given tag as attributes.
pub fn get_nested_attributes(attrs: &Vec<Attribute>, kind: u16) -> (result: Result<
    Vec<Attribute>,
    DecodeError,
>)
    ensures
        decoded_as(result, nested_attributes(views(attrs@), kind)),
{
    match get_attribute(attrs, kind) {
        Some(found) => found.get_nested(),
        None => Err(DecodeError::MissingAttribute),
    }
}

/// Where the parts of an encoded attribute lie when `tail` follows it.
proof fn encoded_layout(first: AttributeView, tail: Seq<u8>)
    requires
        first.fits(),
    ensures
        ({
            let len = 4 + first.payload.len() as int;
            let bytes = first.encoded() + tail;
            &&& first.encoded().len() == align4(len)
            &&& len <= align4(len) < len + 4
            &&& bytes.subrange(0, 2) == u16_le(len as u16)
            &&& bytes.subrange(2, 4) == u16_le(first.nla_type)
            &&& bytes.subrange(4, len) == first.payload
            &&& bytes.skip(align4(len)) == tail
        }),
{
    reveal(AttributeView::encoded);
    let len = 4 + first.payload.len() as int;
    let bytes = first.encoded() + tail;
    let pad = zeros(align4(len) - len);
    assert(len <= align4(len) < len + 4);
    assert(pad.len() == align4(len) - len);
    u16_round_trip(len as u16);
    u16_round_trip(first.nla_type);
    assert(first.encoded().len() == align4(len));
    assert(bytes.subrange(0, 2) =~= u16_le(len as u16));
    assert(bytes.subrange(2, 4) =~= u16_le(first.nla_type));
    assert(bytes.subrange(4, len) =~= first.payload);
    assert(bytes.skip(align4(len)) =~= tail);
}

/// Parsing a buffer that starts with an encoded attribute yields that
/// attribute and goes on with what follows it.
proof fn parse_encoded_first(first: AttributeView, tail: Seq<u8>)
    requires
        first.fits(),
        tail.len() % 4 == 0,
    ensures
        parse_attributes(first.encoded() + tail) == after(seq![first], parse_attributes(tail)),
        (first.encoded() + tail).len() % 4 == 0,
{
    let len = 4 + first.payload.len() as int;
    let bytes = first.encoded() + tail;
    encoded_layout(first, tail);
    u16_round_trip(len as u16);
    u16_round_trip(first.nla_type);
    assert(bytes.len() == align4(len) + tail.len());
    assert(stride(len, bytes.len() as int) == align4(len));
    assert(align4(len) % 4 == 0);
}

/// Decoding what was encoded gives the attributes back.
pub proof fn attributes_round_trip(attrs: Seq<AttributeView>)
    requires
        all_fit(attrs),
    ensures
        parse_attributes(encode_attributes(attrs)) == Ok::<Seq<AttributeView>, DecodeError>(attrs),
        encode_attributes(attrs).len() % 4 == 0,
    decreases attrs.len(),
{
    if attrs.len() == 0 {
        assert(attrs =~= Seq::empty());
    } else {
        let first = attrs[0];
        let rest = attrs.skip(1);
        assert(first.fits());
        assert forall|i: int| 0 <= i < rest.len() implies (#[trigger] rest[i]).fits() by {
            assert(rest[i] == attrs[i + 1]);
        }
        attributes_round_trip(rest);
        parse_encoded_first(first, encode_attributes(rest));
        assert(encode_attributes(attrs) == first.encoded() + encode_attributes(rest));
        assert(seq![first] + rest =~= attrs);
        assert(after(seq![first], parse_attributes(encode_attributes(rest))) == Ok::<
            Seq<AttributeView>,
            DecodeError,
        >(seq![first] + rest));
    }
}

/// A lookup finds an attribute exactly when one has the tag, and what it
/// finds has the tag and nothing behind it has.
pub proof fn lookup_finds_the_last(attrs: Seq<AttributeView>, kind: u16)
    ensures
        lookup(attrs, kind) is Some <==> exists|i: int|
            0 <= i < attrs.len() && (#[trigger] attrs[i]).kind() == kind,
        lookup(attrs, kind) matches Some(found) ==> exists|i: int|
            0 <= i < attrs.len() && attrs[i] == found && found.kind() == kind && forall|j: int|
                i < j < attrs.len() ==> (#[trigger] attrs[j]).kind() != kind,
    decreases attrs.len(),
{
    if attrs.len() == 0 {
    } else if attrs.last().kind() == kind {
        let i = attrs.len() - 1;
        assert(attrs[i].kind() == kind);
    } else {
        let front = attrs.drop_last();
        lookup_finds_the_last(front, kind);
        if lookup(front, kind) is Some {
            let found = lookup(front, kind)->Some_0;
            let i = choose|i: int|
                0 <= i < front.len() && front[i] == found && found.kind() == kind && forall|j: int|
                    i < j < front.len() ==> (#[trigger] front[j]).kind() != kind;
            assert(attrs[i] == front[i]);
            assert forall|j: int| i < j < attrs.len() implies (#[trigger] attrs[j]).kind()
                != kind by {
                if j < front.len() {
                    assert(front[j] == attrs[j]);
                }
            }
            assert(attrs[i].kind() == kind);
        } else {
            assert forall|i: int| 0 <= i < attrs.len() implies (#[trigger] attrs[i]).kind()
                != kind by {
                if i < front.len() {
                    assert(front[i] == attrs[i]);
                }
            }
        }
    }
}

} // verus!
