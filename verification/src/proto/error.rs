//! Errors of the wire protocol.

use super::field;
use super::field::FieldType;
use crate::text;
use crate::text::{decimal, join};
use vstd::prelude::*;
use vstd::string::*;

verus! {

/// Why bytes could not be read as a message, or a payload not as what was expected.
#[derive(Debug)]
pub enum ProtoError {
    /// A header named a field-type byte that is not defined.
    UnknownFieldType(u8),
    /// A session-type payload held an undefined value.
    InvalidSessionType(u8),
    /// A header declared a payload larger than the accepted maximum.
    PayloadTooLarge(u32),
    /// A typed accessor could not interpret the payload.
    InvalidPayload {
        /// The type of the message whose payload could not be read.
        field_type: FieldType,
        /// Why it could not be read.
        reason: &'static str,
    },
}

/// A [`ProtoError`] with its reason as a sequence of characters.
pub enum ProtoErrorView {
    UnknownFieldType(u8),
    InvalidSessionType(u8),
    PayloadTooLarge(u32),
    InvalidPayload { field_type: FieldType, reason: Seq<char> },
}

impl View for ProtoError {
    type V = ProtoErrorView;

    open spec fn view(&self) -> ProtoErrorView {
        match *self {
            ProtoError::UnknownFieldType(b) => ProtoErrorView::UnknownFieldType(b),
            ProtoError::InvalidSessionType(b) => ProtoErrorView::InvalidSessionType(b),
            ProtoError::PayloadTooLarge(n) => ProtoErrorView::PayloadTooLarge(n),
            ProtoError::InvalidPayload { field_type, reason } => ProtoErrorView::InvalidPayload {
                field_type,
                reason: reason@,
            },
        }
    }
}

impl ProtoErrorView {
    /// The error in words.
    pub open spec fn text(self) -> Seq<char> {
        match self {
            ProtoErrorView::UnknownFieldType(b) => "unknown field type byte: "@ + text::decimal_text(
                b as nat,
            ),
            ProtoErrorView::InvalidSessionType(b) => "invalid session type byte: "@ + text::decimal_text(
                b as nat,
            ),
            ProtoErrorView::PayloadTooLarge(n) => "payload length "@ + text::decimal_text(n as nat)
                + " exceeds maximum"@,
            ProtoErrorView::InvalidPayload { field_type, reason } => "invalid payload for "@
                + field::field_name(field_type) + ": "@ + reason,
        }
    }
}

impl ProtoError {
    /// The error in words.
    pub fn message(&self) -> (s: String)
        ensures
            s@ == self@.text(),
    {
        match self {
            ProtoError::UnknownFieldType(b) => {
                let n = decimal(*b as u64);
                join("unknown field type byte: ", n.as_str())
            },
            ProtoError::InvalidSessionType(b) => {
                let n = decimal(*b as u64);
                join("invalid session type byte: ", n.as_str())
            },
            ProtoError::PayloadTooLarge(n) => {
                let n = decimal(*n as u64);
                let mut s = join("payload length ", n.as_str());
                s.append(" exceeds maximum");
                s
            },
            ProtoError::InvalidPayload { field_type, reason } => {
                let mut s = join("invalid payload for ", field_type.name());
                s.append(": ");
                s.append(reason);
                s
            },
        }
    }
}

} // verus!
