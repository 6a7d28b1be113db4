//! What can go wrong: in decoding, in framing, and in a scan as a whole.

use vstd::prelude::*;
use crate::error::ErrorChain;

verus! {

/// Why a received buffer could not be decoded.
#[derive(Debug, Clone, Copy, PartialEq, Eq, Structural)]
pub enum DecodeError {
    /// The buffer ends inside a header.
    Truncated,
    /// A declared length is shorter than its own header or runs past the buffer.
    BadLength,
    /// A payload has not the width of the scalar that was asked for.
    WrongWidth,
    /// A payload that should be text is empty or no UTF-8.
    InvalidText,
    /// An attribute that the message must carry is absent.
    MissingAttribute,
}

/// Why a value could not be framed.
#[derive(Debug, Clone, Copy, PartialEq, Eq, Structural)]
pub enum EncodeError {
    /// The type tag needs more than the 14 bits the type field leaves for it.
    TagTooLarge,
    /// Header and payload together do not fit the length field.
    PayloadTooLong,
}

/// Why a scan failed.
#[derive(Debug, Clone, Copy, PartialEq, Eq, Structural)]
pub enum ScanError {
    /// A socket could not be opened, a name could not be resolved, or a send
    /// or read failed.
    Transport,
    /// No interface of the requested name is among the wireless interfaces.
    InterfaceNotFound,
    /// An answer of the kernel is malformed.
    Decode(DecodeError),
    /// No announcement of new scan results arrived in time.
    ScanTimeout,
    /// The kernel rejected the request to scan, with this error code.
    Protocol(i32),
    /// The driver reported something that the session was not waiting for.
    OutOfTurn,
}

/// What a decoding error is called.
pub open spec fn decode_error_text(error: DecodeError) -> Seq<char> {
    match error {
        DecodeError::Truncated => "Buffer ends inside a header"@,
        DecodeError::BadLength => "Length field out of bounds"@,
        DecodeError::WrongWidth => "Payload of wrong width"@,
        DecodeError::InvalidText => "Payload is not text"@,
        DecodeError::MissingAttribute => "Attribute is missing"@,
    }
}

/// What a framing error is called.
pub open spec fn encode_error_text(error: EncodeError) -> Seq<char> {
    match error {
        EncodeError::TagTooLarge => "Type tag too large"@,
        EncodeError::PayloadTooLong => "Payload too long"@,
    }
}

/// What the failure of a scan is called. The cause of a decoding error has a
/// message of its own.
pub open spec fn scan_error_text(error: ScanError) -> Seq<char> {
    match error {
        ScanError::Transport => "Netlink transport failed"@,
        ScanError::InterfaceNotFound => "Interface not found"@,
        ScanError::Decode(_) => "Malformed response"@,
        ScanError::ScanTimeout => "No scan results received"@,
        ScanError::Protocol(_) => "Scan request rejected"@,
        ScanError::OutOfTurn => "Unexpected event"@,
    }
}

impl DecodeError {
    /// The message of the error.
    pub fn message(&self) -> (text: &'static str)
        ensures
            text@ == decode_error_text(*self),
    {
        match self {
            DecodeError::Truncated => "Buffer ends inside a header",
            DecodeError::BadLength => "Length field out of bounds",
            DecodeError::WrongWidth => "Payload of wrong width",
            DecodeError::InvalidText => "Payload is not text",
            DecodeError::MissingAttribute => "Attribute is missing",
        }
    }
}

impl EncodeError {
    /// The message of the error.
    pub fn message(&self) -> (text: &'static str)
        ensures
            text@ == encode_error_text(*self),
    {
        match self {
            EncodeError::TagTooLarge => "Type tag too large",
            EncodeError::PayloadTooLong => "Payload too long",
        }
    }
}

impl ScanError {
    /// The message of the error, without its cause.
    pub fn message(&self) -> (text: &'static str)
        ensures
            text@ == scan_error_text(*self),
    {
        match self {
            ScanError::Transport => "Netlink transport failed",
            ScanError::InterfaceNotFound => "Interface not found",
            ScanError::Decode(_) => "Malformed response",
            ScanError::ScanTimeout => "No scan results received",
            ScanError::Protocol(_) => "Scan request rejected",
            ScanError::OutOfTurn => "Unexpected event",
        }
    }

    /// The error with its cause, if it has one that this crate knows: the
    /// decoding error behind a malformed answer.
    pub fn chain(&self) -> (chain: ErrorChain)
        ensures
            chain@ == scan_error_chain(*self),
    {
        match self {
            ScanError::Decode(cause) => ErrorChain::new(cause.message().to_owned()).context(
                self.message().to_owned(),
            ),
            _ => ErrorChain::new(self.message().to_owned()),
        }
    }
}

/// The messages of a failed scan: what it is called and, for a malformed
/// answer, what was wrong with it.
pub open spec fn scan_error_chain(error: ScanError) -> Seq<Seq<char>> {
    match error {
        ScanError::Decode(cause) => seq![scan_error_text(error), decode_error_text(cause)],
        _ => seq![scan_error_text(error)],
    }
}

} // verus!
