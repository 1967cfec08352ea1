//! Messages: a type tag and a payload.

use super::error::{ProtoError, ProtoErrorView};
use super::field;
use super::field::{FieldType, SessionType};
use super::header;
use super::header::Header;
use crate::bytes;
use crate::bytes::{
    bits_of_i32, copy_range, i32_from_bits, length_field, push_le16, push_le32, read_le16,
    read_le32, same_bytes,
};
use crate::text;
use crate::text::{decimal, join};
use vstd::prelude::*;
use vstd::string::*;
use vstd::utf8::*;

verus! {

/// One protocol message: a type tag and the raw bytes of its payload.
pub struct Message {
    field_type: FieldType,
    payload: Vec<u8>,
}

/// A message as a mathematical value.
#[verifier::ext_equal]
pub struct MessageView {
    /// The type tag.
    pub field_type: FieldType,
    /// The payload bytes.
    pub payload: Seq<u8>,
}

impl View for Message {
    type V = MessageView;

    closed spec fn view(&self) -> MessageView {
        MessageView { field_type: self.field_type, payload: self.payload@ }
    }
}

impl MessageView {
    /// The header in front of the payload. Its length field holds the low 32 bits of
    /// the payload's length.
    pub open spec fn header(self) -> Header {
        Header { field_type: self.field_type, len: bytes::len32(self.payload.len()) }
    }

    /// The message on the wire.
    pub open spec fn wire(self) -> Seq<u8> {
        header::header_bytes(self.header()) + self.payload
    }

    /// The message that `buf` holds, if it holds exactly one.
    pub open spec fn of_wire(buf: Seq<u8>) -> Option<MessageView> {
        if buf.len() < 5 {
            None
        } else {
            match header::header_of(buf.take(5)) {
                Ok(h) => if buf.len() == 5 + h.len {
                    Some(MessageView { field_type: h.field_type, payload: buf.skip(5) })
                } else {
                    None
                },
                Err(_) => None,
            }
        }
    }

    /// A message whose payload is a text.
    pub open spec fn of_text(field_type: FieldType, s: Seq<char>) -> MessageView {
        MessageView { field_type, payload: encode_utf8(s) }
    }

    /// A message that reports an exit status.
    pub open spec fn exit(code: i32) -> MessageView {
        MessageView { field_type: FieldType::Exit, payload: bytes::le32(bytes::i32_bits(code)) }
    }

    /// A message that announces descriptors.
    pub open spec fn fds(count: u32) -> MessageView {
        MessageView { field_type: FieldType::Fd, payload: bytes::le32(count) }
    }

    /// A message that selects a session type.
    pub open spec fn session_type(ty: SessionType) -> MessageView {
        MessageView { field_type: FieldType::SessionType, payload: seq![field::session_wire(ty)] }
    }

    /// A message that carries a secret.
    pub open spec fn secret(s: Seq<u8>) -> MessageView {
        MessageView { field_type: FieldType::Secret, payload: s }
    }

    /// A message that carries terminal dimensions.
    pub open spec fn winsize(dims: Seq<u16>) -> MessageView {
        MessageView {
            field_type: FieldType::Winsize,
            payload: bytes::le16(dims[0]) + bytes::le16(dims[1]) + bytes::le16(dims[2])
                + bytes::le16(dims[3]),
        }
    }

    /// The message that ends the configuration.
    pub open spec fn end() -> MessageView {
        MessageView { field_type: FieldType::End, payload: Seq::empty() }
    }

    /// The payload as text, if it is UTF-8.
    pub open spec fn text(self) -> Option<Seq<char>> {
        if valid_utf8(self.payload) {
            Some(decode_utf8(self.payload))
        } else {
            None
        }
    }

    /// The payload as an unsigned number, if it has four bytes.
    pub open spec fn number(self) -> Option<u32> {
        if self.payload.len() == 4 {
            Some(bytes::le32_value(self.payload))
        } else {
            None
        }
    }

    /// The payload as terminal dimensions, if it has eight bytes.
    pub open spec fn dims(self) -> Option<Seq<u16>> {
        if self.payload.len() == 8 {
            Some(
                seq![
                    bytes::le16_value(self.payload.subrange(0, 2)),
                    bytes::le16_value(self.payload.subrange(2, 4)),
                    bytes::le16_value(self.payload.subrange(4, 6)),
                    bytes::le16_value(self.payload.subrange(6, 8)),
                ],
            )
        } else {
            None
        }
    }

    /// The payload as a session type, or why it is none.
    pub open spec fn session(self) -> Result<SessionType, ProtoErrorView> {
        if self.payload.len() == 1 {
            match field::session_type_of(self.payload[0]) {
                Some(t) => Ok(t),
                None => Err(ProtoErrorView::InvalidSessionType(self.payload[0])),
            }
        } else {
            Err(self.bad("expected single session-type byte"@))
        }
    }

    /// The error for a payload that is not what was expected.
    pub open spec fn bad(self, reason: Seq<char>) -> ProtoErrorView {
        ProtoErrorView::InvalidPayload { field_type: self.field_type, reason }
    }

    /// The message for a log: its type and the length of its payload, never its contents.
    pub open spec fn description(self) -> Seq<char> {
        "Message { field_type: "@ + field::field_name(self.field_type) + ", len: "@
            + text::decimal_text(self.payload.len()) + " }"@
    }
}

/// Reads bytes as UTF-8 text, by `std::str::from_utf8`: it gives a text if and only if
/// the bytes are valid UTF-8, and the text is then the one that they encode.
#[verifier::external_body]
fn utf8_text(buf: &[u8]) -> (r: Option<&str>)
    ensures
        match r {
            Some(s) => valid_utf8(buf@) && s@ == decode_utf8(buf@),
            None => !valid_utf8(buf@),
        },
{
    std::str::from_utf8(buf).ok()
}

impl Message {
    /// Builds a message from a type tag and a payload.
    pub fn new(field_type: FieldType, payload: Vec<u8>) -> (m: Message)
        ensures
            m@ == (MessageView { field_type, payload: payload@ }),
    {
        Message { field_type, payload }
    }

    /// The type tag.
    pub fn field_type(&self) -> (t: FieldType)
        ensures
            t == self@.field_type,
    {
        self.field_type
    }

    /// The raw payload bytes.
    pub fn payload(&self) -> (p: &[u8])
        ensures
            p@ == self@.payload,
    {
        self.payload.as_slice()
    }

    /// Takes the payload out of the message.
    pub fn into_payload(self) -> (p: Vec<u8>)
        ensures
            p@ == self@.payload,
    {
        self.payload
    }

    /// The header in front of this message on the wire.
    pub fn header(&self) -> (h: Header)
        ensures
            h == self@.header(),
    {
        Header { field_type: self.field_type, len: length_field(self.payload.len()) }
    }

    /// The message on the wire: header, then payload.
    pub fn encode(&self) -> (out: Vec<u8>)
        ensures
            out@ == self@.wire(),
    {
        let mut out: Vec<u8> = Vec::new();
        let head = self.header().encode();
        out.extend_from_slice(head.as_slice());
        out.extend_from_slice(self.payload.as_slice());
        assert(out@ =~= self@.wire());
        out
    }

    /// A message whose payload is a text.
    fn of_text(field_type: FieldType, s: &str) -> (m: Message)
        ensures
            m@ == MessageView::of_text(field_type, s@),
    {
        Message { field_type, payload: s.as_bytes_vec() }
    }

    /// A [`FieldType::Arg`] with one argument.
    pub fn arg(s: &str) -> (m: Message)
        ensures
            m@ == MessageView::of_text(FieldType::Arg, s@),
    {
        Message::of_text(FieldType::Arg, s)
    }

    /// A [`FieldType::Env`] with one `KEY=VALUE` entry.
    pub fn env(s: &str) -> (m: Message)
        ensures
            m@ == MessageView::of_text(FieldType::Env, s@),
    {
        Message::of_text(FieldType::Env, s)
    }

    /// A [`FieldType::Exit`] with an exit status.
    pub fn exit(code: i32) -> (m: Message)
        ensures
            m@ == MessageView::exit(code),
    {
        let mut payload: Vec<u8> = Vec::new();
        push_le32(&mut payload, bits_of_i32(code));
        assert(payload@ =~= MessageView::exit(code).payload);
        Message { field_type: FieldType::Exit, payload }
    }

    /// A [`FieldType::Fd`] that announces `count` descriptors.
    pub fn fds(count: u32) -> (m: Message)
        ensures
            m@ == MessageView::fds(count),
    {
        let mut payload: Vec<u8> = Vec::new();
        push_le32(&mut payload, count);
        assert(payload@ =~= MessageView::fds(count).payload);
        Message { field_type: FieldType::Fd, payload }
    }

    /// A [`FieldType::SessionType`].
    pub fn session_type(ty: SessionType) -> (m: Message)
        ensures
            m@ == MessageView::session_type(ty),
    {
        let payload: Vec<u8> = vec![ty.as_u8()];
        assert(payload@ =~= MessageView::session_type(ty).payload);
        Message { field_type: FieldType::SessionType, payload }
    }

    /// A [`FieldType::Error`] with an error in words.
    pub fn error(s: &str) -> (m: Message)
        ensures
            m@ == MessageView::of_text(FieldType::Error, s@),
    {
        Message::of_text(FieldType::Error, s)
    }

    /// A [`FieldType::Secret`] with an authentication secret.
    pub fn secret(s: &[u8]) -> (m: Message)
        ensures
            m@ == MessageView::secret(s@),
    {
        let payload = copy_range(s, 0, s.len());
        assert(payload@ =~= s@);
        Message { field_type: FieldType::Secret, payload }
    }

    /// A [`FieldType::Unauthorized`] with a prompt for the client.
    pub fn unauthorized(prompt: &str) -> (m: Message)
        ensures
            m@ == MessageView::of_text(FieldType::Unauthorized, prompt@),
    {
        Message::of_text(FieldType::Unauthorized, prompt)
    }

    /// A [`FieldType::Winsize`] with rows, columns, x pixels and y pixels.
    pub fn winsize(dims: [u16; 4]) -> (m: Message)
        ensures
            m@ == MessageView::winsize(dims@),
    {
        let mut payload: Vec<u8> = Vec::with_capacity(8);
        push_le16(&mut payload, dims[0]);
        push_le16(&mut payload, dims[1]);
        push_le16(&mut payload, dims[2]);
        push_le16(&mut payload, dims[3]);
        assert(payload@ =~= MessageView::winsize(dims@).payload);
        Message { field_type: FieldType::Winsize, payload }
    }

    /// A [`FieldType::End`], which ends the configuration.
    pub fn end() -> (m: Message)
        ensures
            m@ == MessageView::end(),
    {
        let m = Message { field_type: FieldType::End, payload: Vec::new() };
        assert(m@.payload =~= MessageView::end().payload);
        m
    }

    /// The error for a payload that is not what was expected.
    fn bad(&self, reason: &'static str) -> (e: ProtoError)
        ensures
            e@ == self@.bad(reason@),
    {
        ProtoError::InvalidPayload { field_type: self.field_type, reason }
    }

    /// The payload as text.
    pub fn as_str(&self) -> (r: Result<&str, ProtoError>)
        ensures
            match r {
                Ok(s) => self@.text() == Some(s@),
                Err(e) => self@.text() is None && e@ == self@.bad("expected UTF-8 text"@),
            },
    {
        match utf8_text(self.payload.as_slice()) {
            Some(s) => Ok(s),
            None => Err(self.bad("expected UTF-8 text")),
        }
    }

    /// The payload as a signed number, such as an exit status.
    pub fn as_i32(&self) -> (r: Result<i32, ProtoError>)
        ensures
            match r {
                Ok(code) => self@.number() is Some && code == bytes::i32_of_bits(
                    self@.number().unwrap(),
                ),
                Err(e) => self@.number() is None && e@ == self@.bad("expected 4-byte integer"@),
            },
    {
        match self.as_u32() {
            Ok(bits) => Ok(i32_from_bits(bits)),
            Err(e) => Err(e),
        }
    }

    /// The payload as an unsigned number, such as a descriptor count.
    pub fn as_u32(&self) -> (r: Result<u32, ProtoError>)
        ensures
            match r {
                Ok(n) => self@.number() == Some(n),
                Err(e) => self@.number() is None && e@ == self@.bad("expected 4-byte integer"@),
            },
    {
        if self.payload.len() != 4 {
            return Err(self.bad("expected 4-byte integer"));
        }
        assert(self.payload@.subrange(0, 4) =~= self.payload@);
        Ok(read_le32(self.payload.as_slice(), 0))
    }

    /// The payload as rows, columns, x pixels and y pixels.
    pub fn as_winsize(&self) -> (r: Result<[u16; 4], ProtoError>)
        ensures
            match r {
                Ok(dims) => self@.dims() == Some(dims@),
                Err(e) => self@.dims() is None && e@ == self@.bad("expected 8-byte window size"@),
            },
    {
        if self.payload.len() != 8 {
            return Err(self.bad("expected 8-byte window size"));
        }
        let p = self.payload.as_slice();
        let dims: [u16; 4] = [
            read_le16(p, 0),
            read_le16(p, 2),
            read_le16(p, 4),
            read_le16(p, 6),
        ];
        assert(dims@ =~= self@.dims().unwrap());
        Ok(dims)
    }

    /// The payload as a session type.
    pub fn as_session_type(&self) -> (r: Result<SessionType, ProtoError>)
        ensures
            match r {
                Ok(t) => self@.session() == Ok::<SessionType, ProtoErrorView>(t),
                Err(e) => self@.session() == Err::<SessionType, ProtoErrorView>(e@),
            },
    {
        if self.payload.len() == 1 {
            SessionType::try_from(self.payload[0])
        } else {
            Err(self.bad("expected single session-type byte"))
        }
    }

    /// The message for a log: its type and the length of its payload, never its contents.
    pub fn describe(&self) -> (s: String)
        ensures
            s@ == self@.description(),
    {
        let len = decimal(self.payload.len() as u64);
        let mut s = join("Message { field_type: ", self.field_type.name());
        s.append(", len: ");
        s.append(len.as_str());
        s.append(" }");
        s
    }
}

impl Clone for Message {
    fn clone(&self) -> (m: Message)
        ensures
            m@ == self@,
    {
        let payload = copy_range(self.payload.as_slice(), 0, self.payload.len());
        assert(payload@ =~= self.payload@);
        Message { field_type: self.field_type, payload }
    }
}

impl PartialEq for Message {
    fn eq(&self, other: &Message) -> (same: bool) {
        self.field_type == other.field_type && same_bytes(
            self.payload.as_slice(),
            other.payload.as_slice(),
        )
    }
}

impl vstd::std_specs::cmp::PartialEqSpecImpl for Message {
    open spec fn obeys_eq_spec() -> bool {
        true
    }

    open spec fn eq_spec(&self, other: &Message) -> bool {
        self@ == other@
    }
}

impl Eq for Message {

}

/// Reads a buffer that holds exactly one message.
pub fn decode_message(buf: &[u8]) -> (r: Option<Message>)
    ensures
        match r {
            Some(m) => MessageView::of_wire(buf@) == Some(m@),
            None => MessageView::of_wire(buf@) is None,
        },
{
    if buf.len() < 5 {
        return None;
    }
    let head: [u8; 5] = [buf[0], buf[1], buf[2], buf[3], buf[4]];
    assert(head@ =~= buf@.take(5));
    let header = match Header::decode(&head) {
        Ok(h) => h,
        Err(_) => return None,
    };
    if buf.len() - 5 != header.len as usize {
        return None;
    }
    let payload = copy_range(buf, 5, buf.len());
    assert(payload@ =~= buf@.skip(5));
    Some(Message { field_type: header.field_type, payload })
}

} // verus!
