//! The fixed-size header in front of every payload.

use super::error::ProtoError;
use super::field;
use super::field::FieldType;
use crate::bytes;
use crate::bytes::{push_le32, read_le32};
use vstd::prelude::*;

verus! {

/// The largest payload that a decoded header may declare.
pub const MAX_PAYLOAD: usize = 16 * 1024 * 1024;

/// The type and the length of the payload that follows.
#[derive(Clone, Copy, PartialEq, Eq, Debug, Structural)]
pub struct Header {
    /// The kind of payload that follows.
    pub field_type: FieldType,
    /// Length of the payload in bytes.
    pub len: u32,
}

/// The five bytes of a header.
pub open spec fn header_bytes(h: Header) -> Seq<u8> {
    seq![field::field_wire(h.field_type)] + bytes::le32(h.len)
}

/// The header that five bytes hold, or why they hold none.
pub open spec fn header_of(buf: Seq<u8>) -> Result<Header, ProtoError> {
    let len = bytes::le32_value(buf.subrange(1, 5));
    match field::field_type_of(buf[0]) {
        None => Err(ProtoError::UnknownFieldType(buf[0])),
        Some(field_type) => if len > MAX_PAYLOAD {
            Err(ProtoError::PayloadTooLarge(len))
        } else {
            Ok(Header { field_type, len })
        },
    }
}

/// A header within the payload limit is read back from its bytes. One beyond the
/// limit is refused with its length.
pub proof fn header_roundtrip(h: Header)
    ensures
        header_bytes(h).len() == 5,
        h.len <= MAX_PAYLOAD ==> header_of(header_bytes(h)) == Ok::<Header, ProtoError>(h),
        h.len > MAX_PAYLOAD ==> header_of(header_bytes(h)) == Err::<Header, ProtoError>(
            ProtoError::PayloadTooLarge(h.len),
        ),
{
    bytes::le32_roundtrip(h.len);
    assert(header_bytes(h).subrange(1, 5) =~= bytes::le32(h.len));
}

/// Five bytes that hold a header are the bytes of that header.
pub proof fn header_is_canonical(buf: Seq<u8>)
    requires
        buf.len() == 5,
        header_of(buf) is Ok,
    ensures
        header_bytes(header_of(buf)->Ok_0) == buf,
        header_of(buf)->Ok_0.len <= MAX_PAYLOAD,
{
    bytes::le32_value_roundtrip(buf.subrange(1, 5));
    assert(header_bytes(header_of(buf)->Ok_0) =~= buf);
}

impl Header {
    /// Encoded size of a header in bytes.
    pub const SIZE: usize = 5;

    /// The five bytes of the header.
    pub fn encode(&self) -> (buf: [u8; 5])
        ensures
            buf@ == header_bytes(*self),
    {
        let mut le: Vec<u8> = Vec::new();
        push_le32(&mut le, self.len);
        let buf: [u8; 5] = [self.field_type.as_u8(), le[0], le[1], le[2], le[3]];
        assert(buf@ =~= header_bytes(*self));
        buf
    }

    /// Reads a header from its five bytes. A payload beyond [`MAX_PAYLOAD`] is refused,
    /// so that no peer can ask for a huge allocation.
    pub fn decode(buf: &[u8; 5]) -> (r: Result<Header, ProtoError>)
        ensures
            r == header_of(buf@),
    {
        let field_type = match FieldType::try_from(buf[0]) {
            Ok(t) => t,
            Err(e) => return Err(e),
        };
        let len: u32 = read_le32(buf.as_slice(), 1);
        if len as usize > MAX_PAYLOAD {
            return Err(ProtoError::PayloadTooLarge(len));
        }
        Ok(Header { field_type, len })
    }
}

} // verus!
