//! What holds of the wire protocol as a whole.

use super::error::{ProtoError, ProtoErrorView};
use super::field;
use super::field::{FieldType, SessionType};
use super::header;
use super::header::{Header, MAX_PAYLOAD};
use super::message::{decode_message, Message, MessageView};
use crate::bytes;
use vstd::prelude::*;
use vstd::utf8::*;

verus! {

/// A message is read back from its bytes as it was, unless its payload is beyond the
/// limit: then it is refused.
pub proof fn message_roundtrip(m: MessageView)
    ensures
        m.payload.len() <= MAX_PAYLOAD ==> MessageView::of_wire(m.wire()) == Some(m),
        m.payload.len() > MAX_PAYLOAD ==> MessageView::of_wire(m.wire()) is None,
{
    let h = m.header();
    header::header_roundtrip(h);
    assert(m.wire().take(5) =~= header::header_bytes(h));
    assert(m.wire().skip(5) =~= m.payload);
}

/// A message has one form on the wire: bytes that are read as a message are the bytes
/// of that message, so they can be forwarded unchanged.
pub proof fn message_is_canonical(buf: Seq<u8>)
    requires
        MessageView::of_wire(buf) is Some,
    ensures
        MessageView::of_wire(buf).unwrap().wire() == buf,
        MessageView::of_wire(buf).unwrap().payload.len() <= MAX_PAYLOAD,
{
    header::header_is_canonical(buf.take(5));
    let m = MessageView::of_wire(buf).unwrap();
    assert(m.wire() =~= buf);
}

/// A message shows where it ends, as long as its length fits into the header: if two
/// streams of bytes that start with messages are the same, they start with the same
/// message and go on alike. The limit on payloads plays no part in it.
pub proof fn messages_delimit_themselves(
    a: MessageView,
    b: MessageView,
    after_a: Seq<u8>,
    after_b: Seq<u8>,
)
    requires
        a.payload.len() <= u32::MAX,
        b.payload.len() <= u32::MAX,
        a.wire() + after_a == b.wire() + after_b,
    ensures
        a == b,
        after_a == after_b,
{
    let stream = a.wire() + after_a;
    let (ha, hb) = (header::header_bytes(a.header()), header::header_bytes(b.header()));
    let (na, nb) = (a.payload.len() as int, b.payload.len() as int);
    assert(stream.take(5) =~= ha);
    assert((b.wire() + after_b).take(5) =~= hb);
    assert(ha[0] == hb[0]);
    assert(ha.subrange(1, 5) =~= bytes::le32(a.header().len));
    assert(hb.subrange(1, 5) =~= bytes::le32(b.header().len));
    bytes::le32_roundtrip(a.header().len);
    bytes::le32_roundtrip(b.header().len);
    field::field_wire_roundtrip(a.field_type, 0);
    field::field_wire_roundtrip(b.field_type, 0);
    assert(na == nb);
    assert(stream.subrange(5, 5 + na) =~= a.payload);
    assert((b.wire() + after_b).subrange(5, 5 + nb) =~= b.payload);
    assert(stream.skip(5 + na) =~= after_a);
    assert((b.wire() + after_b).skip(5 + nb) =~= after_b);
    assert(a =~= b);
}

/// Two messages that look the same on the wire are the same, as long as their lengths fit
/// into the header.
pub proof fn message_wire_injective(a: MessageView, b: MessageView)
    requires
        a.payload.len() <= u32::MAX,
        b.payload.len() <= u32::MAX,
        a.wire() == b.wire(),
    ensures
        a == b,
{
    messages_delimit_themselves(a, b, Seq::empty(), Seq::empty());
}

/// A text that was put into a message is read back from it.
pub proof fn text_roundtrip(t: FieldType, s: Seq<char>)
    ensures
        MessageView::of_text(t, s).text() == Some(s),
{
    encode_utf8_valid_utf8(s);
    encode_utf8_decode_utf8(s);
}

/// An exit status that was put into a message is read back from it.
pub proof fn exit_roundtrip(code: i32)
    ensures
        MessageView::exit(code).number() is Some,
        bytes::i32_of_bits(MessageView::exit(code).number().unwrap()) == code,
{
    bytes::le32_roundtrip(bytes::i32_bits(code));
    bytes::i32_roundtrip(code);
}

/// A descriptor count that was put into a message is read back from it.
pub proof fn fds_roundtrip(count: u32)
    ensures
        MessageView::fds(count).number() == Some(count),
{
    bytes::le32_roundtrip(count);
}

/// A session type that was put into a message is read back from it.
pub proof fn session_type_roundtrip(ty: SessionType)
    ensures
        MessageView::session_type(ty).session() == Ok::<
            SessionType,
            ProtoErrorView,
        >(ty),
{
}

/// Terminal dimensions that were put into a message are read back from it.
pub proof fn winsize_roundtrip(dims: Seq<u16>)
    requires
        dims.len() == 4,
    ensures
        MessageView::winsize(dims).dims() == Some(dims),
{
    let p = MessageView::winsize(dims).payload;
    assert(p.subrange(0, 2) =~= bytes::le16(dims[0]));
    assert(p.subrange(2, 4) =~= bytes::le16(dims[1]));
    assert(p.subrange(4, 6) =~= bytes::le16(dims[2]));
    assert(p.subrange(6, 8) =~= bytes::le16(dims[3]));
    bytes::le16_roundtrip(dims[0]);
    bytes::le16_roundtrip(dims[1]);
    bytes::le16_roundtrip(dims[2]);
    bytes::le16_roundtrip(dims[3]);
    assert(MessageView::winsize(dims).dims().unwrap() =~= dims);
}

/// Terminal dimensions that were read from a message make the same payload again.
pub proof fn winsize_is_canonical(m: MessageView)
    requires
        m.dims() is Some,
    ensures
        MessageView::winsize(m.dims().unwrap()).payload == m.payload,
{
    let p = m.payload;
    bytes::le16_value_roundtrip(p.subrange(0, 2));
    bytes::le16_value_roundtrip(p.subrange(2, 4));
    bytes::le16_value_roundtrip(p.subrange(4, 6));
    bytes::le16_value_roundtrip(p.subrange(6, 8));
    assert(p =~= p.subrange(0, 2) + p.subrange(2, 4) + p.subrange(4, 6) + p.subrange(6, 8));
}

/// The numbers on the wire are fixed, whatever else changes.
pub proof fn wire_numbers_are_fixed(t: FieldType, s: SessionType)
    ensures
        field::field_wire(FieldType::Arg) == 1,
        field::field_wire(FieldType::Env) == 2,
        field::field_wire(FieldType::Exit) == 3,
        field::field_wire(FieldType::Fd) == 4,
        field::field_wire(FieldType::SessionType) == 5,
        field::field_wire(FieldType::Error) == 6,
        field::field_wire(FieldType::Secret) == 7,
        field::field_wire(FieldType::Unauthorized) == 8,
        field::field_wire(FieldType::Winsize) == 9,
        field::field_wire(FieldType::End) == 255,
        field::field_type_of(field::field_wire(t)) == Some(t),
        field::session_wire(SessionType::Auto) == 1,
        field::session_wire(SessionType::Interactive) == 2,
        field::session_wire(SessionType::NonInteractive) == 3,
        field::session_type_of(field::session_wire(s)) == Some(s),
        MAX_PAYLOAD == 0x100_0000,
{
}

/// Five bytes hold a header exactly if the first one is the number of a type and the other
/// four, the lowest first, add up to no more than the limit; then it has that type and that
/// length. What is wrong with other bytes is told by their own first byte or length.
pub proof fn header_means(buf: Seq<u8>)
    requires
        buf.len() == 5,
    ensures
        ({
            let known = 1 <= buf[0] <= 9 || buf[0] == 255;
            let len = buf[1] + 0x100 * buf[2] + 0x1_0000 * buf[3] + 0x100_0000 * buf[4];
            match header::header_of(buf) {
                Ok(h) => known && len <= 0x100_0000 && h.len == len && field::field_wire(
                    h.field_type,
                ) == buf[0],
                Err(ProtoError::UnknownFieldType(b)) => !known && b == buf[0],
                Err(ProtoError::PayloadTooLarge(n)) => known && len > 0x100_0000 && n == len,
                Err(_) => false,
            }
        }),
{
    bytes::digits_add_up(buf.subrange(1, 5));
}

/// A message on the wire is the number of its type, the length of its payload in four bytes,
/// the lowest first, and the payload as it is.
pub proof fn wire_means(m: MessageView)
    requires
        m.payload.len() < 0x1_0000_0000,
    ensures
        m.wire().len() == 5 + m.payload.len(),
        m.wire()[0] == field::field_wire(m.field_type),
        m.payload.len() == m.wire()[1] + 0x100 * m.wire()[2] + 0x1_0000 * m.wire()[3] + 0x100_0000
            * m.wire()[4],
        m.wire().skip(5) == m.payload,
{
    bytes::bytes_are_digits(m.header().len, 0);
    assert(m.wire().skip(5) =~= m.payload);
}

/// Each message is tagged with what it is, and holds nothing but what it was made of.
pub proof fn messages_mean(
    t: FieldType,
    s: Seq<char>,
    code: i32,
    count: u32,
    ty: SessionType,
    raw: Seq<u8>,
    dims: Seq<u16>,
)
    requires
        dims.len() == 4,
    ensures
        MessageView::of_text(t, s).field_type == t,
        MessageView::of_text(t, s).payload == encode_utf8(s),
        MessageView::exit(code).field_type == FieldType::Exit,
        MessageView::exit(code).payload.len() == 4,
        ({
            let p = MessageView::exit(code).payload;
            let sum = p[0] + 0x100 * p[1] + 0x1_0000 * p[2] + 0x100_0000 * p[3];
            sum == code || sum == code + 0x1_0000_0000
        }),
        MessageView::fds(count).field_type == FieldType::Fd,
        MessageView::fds(count).payload.len() == 4,
        ({
            let p = MessageView::fds(count).payload;
            p[0] + 0x100 * p[1] + 0x1_0000 * p[2] + 0x100_0000 * p[3] == count
        }),
        MessageView::session_type(ty).field_type == FieldType::SessionType,
        MessageView::session_type(ty).payload == seq![field::session_wire(ty)],
        MessageView::secret(raw).field_type == FieldType::Secret,
        MessageView::secret(raw).payload == raw,
        MessageView::winsize(dims).field_type == FieldType::Winsize,
        MessageView::winsize(dims).payload.len() == 8,
        forall|i: int|
            0 <= i < 4 ==> (#[trigger] dims[i]) == MessageView::winsize(dims).payload[2 * i] + 0x100
                * MessageView::winsize(dims).payload[2 * i + 1],
        MessageView::end().field_type == FieldType::End,
        MessageView::end().payload.len() == 0,
{
    bytes::bytes_are_digits(bytes::i32_bits(code), 0);
    bytes::bytes_are_digits(count, 0);
    bytes::bytes_are_digits(0, dims[0]);
    bytes::bytes_are_digits(0, dims[1]);
    bytes::bytes_are_digits(0, dims[2]);
    bytes::bytes_are_digits(0, dims[3]);
    assert forall|i: int| 0 <= i < 4 implies (#[trigger] dims[i]) == MessageView::winsize(
        dims,
    ).payload[2 * i] + 0x100 * MessageView::winsize(dims).payload[2 * i + 1] by {
        assert(i == 0 || i == 1 || i == 2 || i == 3);
    }
}

/// A payload is read by its bytes alone: as text if it is UTF-8, as a number if it has four
/// bytes, as dimensions if it has eight, as a session type if it is the one byte of one. It
/// can be read as nothing else, and the error names the message and what was expected.
pub proof fn payloads_mean(m: MessageView, reason: Seq<char>)
    ensures
        m.text() is Some <==> valid_utf8(m.payload),
        m.text() matches Some(s) ==> encode_utf8(s) == m.payload,
        m.number() is Some <==> m.payload.len() == 4,
        m.number() matches Some(n) ==> n == m.payload[0] + 0x100 * m.payload[1] + 0x1_0000
            * m.payload[2] + 0x100_0000 * m.payload[3],
        m.dims() is Some <==> m.payload.len() == 8,
        m.dims() matches Some(d) ==> d.len() == 4 && forall|i: int|
            0 <= i < 4 ==> (#[trigger] d[i]) == m.payload[2 * i] + 0x100 * m.payload[2 * i + 1],
        match m.session() {
            Ok(t) => m.payload == seq![field::session_wire(t)],
            Err(ProtoErrorView::InvalidSessionType(b)) => m.payload == seq![b] && !(1 <= b <= 3),
            Err(ProtoErrorView::InvalidPayload { field_type, reason: r }) => m.payload.len() != 1
                && field_type == m.field_type && r == "expected single session-type byte"@,
            Err(_) => false,
        },
        m.bad(reason) == (ProtoErrorView::InvalidPayload { field_type: m.field_type, reason }),
{
    if valid_utf8(m.payload) {
        decode_utf8_encode_utf8(m.payload);
    }
    if m.payload.len() == 1 {
        assert(m.payload =~= seq![m.payload[0]]);
    }
    if m.dims() is Some {
        let d = m.dims().unwrap();
        assert forall|i: int| 0 <= i < 4 implies (#[trigger] d[i]) == m.payload[2 * i] + 0x100
            * m.payload[2 * i + 1] by {
            assert(i == 0 || i == 1 || i == 2 || i == 3);
        }
    }
}

/// Only a whole message is taken for one: bytes are read as a message exactly if they are
/// the bytes of one within the limit.
pub proof fn whole_messages_only(buf: Seq<u8>)
    ensures
        MessageView::of_wire(buf) is Some <==> exists|m: MessageView|
            #[trigger] m.wire() == buf && m.payload.len() <= MAX_PAYLOAD,
{
    if MessageView::of_wire(buf) is Some {
        message_is_canonical(buf);
        let m = MessageView::of_wire(buf).unwrap();
        assert(m.wire() == buf);
    }
    if exists|m: MessageView| #[trigger] m.wire() == buf && m.payload.len() <= MAX_PAYLOAD {
        let m = choose|m: MessageView| #[trigger]
            m.wire() == buf && m.payload.len() <= MAX_PAYLOAD;
        message_roundtrip(m);
    }
}

/// A log never shows what a message holds: messages of one type and one length look alike.
/// What it shows is the type and the length.
pub proof fn descriptions_hide_contents(a: MessageView, b: MessageView)
    requires
        a.field_type == b.field_type,
        a.payload.len() == b.payload.len(),
    ensures
        a.description() == b.description(),
        a.description() == "Message { field_type: "@ + field::field_name(a.field_type)
            + ", len: "@ + crate::text::decimal_text(a.payload.len()) + " }"@,
        field::field_name(FieldType::Arg) == "Arg"@,
        field::field_name(FieldType::Env) == "Env"@,
        field::field_name(FieldType::Exit) == "Exit"@,
        field::field_name(FieldType::Fd) == "Fd"@,
        field::field_name(FieldType::SessionType) == "SessionType"@,
        field::field_name(FieldType::Error) == "Error"@,
        field::field_name(FieldType::Secret) == "Secret"@,
        field::field_name(FieldType::Unauthorized) == "Unauthorized"@,
        field::field_name(FieldType::Winsize) == "Winsize"@,
        field::field_name(FieldType::End) == "End"@,
{
}

/// What each error of the protocol says: what was wrong, with the byte, the length or the
/// type that it was wrong with.
pub proof fn errors_say_what_is_wrong(b: u8, n: u32, t: FieldType, reason: Seq<char>)
    ensures
        ProtoErrorView::UnknownFieldType(b).text() == "unknown field type byte: "@
            + crate::text::decimal_text(b as nat),
        ProtoErrorView::InvalidSessionType(b).text() == "invalid session type byte: "@
            + crate::text::decimal_text(b as nat),
        ProtoErrorView::PayloadTooLarge(n).text() == "payload length "@
            + crate::text::decimal_text(n as nat) + " exceeds maximum"@,
        (ProtoErrorView::InvalidPayload { field_type: t, reason }).text()
            == "invalid payload for "@ + field::field_name(t) + ": "@ + reason,
{
}

/// What a message is made of is what is read of it: a status, a count, a kind of session, a
/// window size and a text come back as they were.
pub proof fn messages_read_back(
    code: i32,
    exit: Message,
    status: Result<i32, ProtoError>,
    n: u32,
    fds: Message,
    count: Result<u32, ProtoError>,
    ty: SessionType,
    session: Message,
    chosen: Result<SessionType, ProtoError>,
    dims: [u16; 4],
    winsize: Message,
    size: Result<[u16; 4], ProtoError>,
)
    requires
        call_ensures(Message::exit, (code,), exit),
        call_ensures(Message::as_i32, (&exit,), status),
        call_ensures(Message::fds, (n,), fds),
        call_ensures(Message::as_u32, (&fds,), count),
        call_ensures(Message::session_type, (ty,), session),
        call_ensures(Message::as_session_type, (&session,), chosen),
        call_ensures(Message::winsize, (dims,), winsize),
        call_ensures(Message::as_winsize, (&winsize,), size),
    ensures
        status matches Ok(x) && x == code,
        count matches Ok(x) && x == n,
        chosen matches Ok(x) && x == ty,
        size matches Ok(x) && x@ == dims@,
{
    exit_roundtrip(code);
    fds_roundtrip(n);
    session_type_roundtrip(ty);
    winsize_roundtrip(dims@);
}

/// Texts come back as they were, each in a message of its own kind.
pub proof fn texts_read_back(
    s: &str,
    arg: Message,
    env: Message,
    error: Message,
    unauthorized: Message,
    m: Message,
    r: Result<&str, ProtoError>,
)
    requires
        call_ensures(Message::arg, (s,), arg),
        call_ensures(Message::env, (s,), env),
        call_ensures(Message::error, (s,), error),
        call_ensures(Message::unauthorized, (s,), unauthorized),
        m@ == arg@ || m@ == env@ || m@ == error@ || m@ == unauthorized@,
        call_ensures(Message::as_str, (&m,), r),
    ensures
        arg@.field_type == FieldType::Arg,
        env@.field_type == FieldType::Env,
        error@.field_type == FieldType::Error,
        unauthorized@.field_type == FieldType::Unauthorized,
        r matches Ok(t) && t@ == s@,
{
    text_roundtrip(FieldType::Arg, s@);
    text_roundtrip(FieldType::Env, s@);
    text_roundtrip(FieldType::Error, s@);
    text_roundtrip(FieldType::Unauthorized, s@);
}

/// A message that is written to the wire is read from it as it was, if its payload is no
/// longer than allowed.
pub proof fn written_messages_are_read(m: Message, out: Vec<u8>, buf: &[u8], r: Option<Message>)
    requires
        m@.payload.len() <= MAX_PAYLOAD,
        call_ensures(Message::encode, (&m,), out),
        buf@ == out@,
        call_ensures(decode_message, (buf,), r),
    ensures
        r matches Some(read) && read@ == m@,
{
    message_roundtrip(m@);
}

/// A message is made of a kind and a payload, and hands both back as they are; two messages
/// are equal exactly if both are, and a copy is equal.
pub proof fn messages_keep_what_they_are_made_of(
    t: FieldType,
    bytes: Vec<u8>,
    m: Message,
    kind: FieldType,
    payload: &[u8],
    taken: Vec<u8>,
    other: Message,
    same: bool,
    copy: Message,
)
    requires
        call_ensures(Message::new, (t, bytes), m),
        call_ensures(Message::field_type, (&m,), kind),
        call_ensures(Message::payload, (&m,), payload),
        call_ensures(Message::into_payload, (m,), taken),
        call_ensures(<Message as PartialEq>::eq, (&m, &other), same),
        call_ensures(<Message as Clone>::clone, (&m,), copy),
    ensures
        kind == t,
        payload@ == bytes@,
        taken@ == bytes@,
        same <==> other@.field_type == t && other@.payload == bytes@,
        copy@.field_type == t,
        copy@.payload == bytes@,
{
    assert(m@.field_type == t && m@.payload == bytes@);
    if other@.field_type == t && other@.payload == bytes@ {
        assert(other@ == m@);
    }
}

/// The number of a kind of field is read as that kind, and any number that is none is refused
/// by name; the same holds of the kinds of session.
pub proof fn numbers_read_back(
    t: FieldType,
    b: u8,
    read: Result<FieldType, ProtoError>,
    s: SessionType,
    c: u8,
    session: Result<SessionType, ProtoError>,
    x: u8,
    field: Result<FieldType, ProtoError>,
    kind: Result<SessionType, ProtoError>,
)
    requires
        call_ensures(FieldType::as_u8, (t,), b),
        call_ensures(<FieldType as TryFrom<u8>>::try_from, (b,), read),
        call_ensures(SessionType::as_u8, (s,), c),
        call_ensures(<SessionType as TryFrom<u8>>::try_from, (c,), session),
        call_ensures(<FieldType as TryFrom<u8>>::try_from, (x,), field),
        call_ensures(<SessionType as TryFrom<u8>>::try_from, (x,), kind),
    ensures
        read == Ok::<FieldType, ProtoError>(t),
        session == Ok::<SessionType, ProtoError>(s),
        !(1 <= x <= 9 || x == 255) ==> field == Err::<FieldType, ProtoError>(
            ProtoError::UnknownFieldType(x),
        ),
        !(1 <= x <= 3) ==> kind == Err::<SessionType, ProtoError>(
            ProtoError::InvalidSessionType(x),
        ),
{
}

/// Errors are shown as they are, and headers take five bytes.
pub proof fn errors_are_shown(b: u8, n: u32, t: FieldType, why: &'static str)
    ensures
        ProtoError::UnknownFieldType(b)@ == ProtoErrorView::UnknownFieldType(b),
        ProtoError::InvalidSessionType(b)@ == ProtoErrorView::InvalidSessionType(b),
        ProtoError::PayloadTooLarge(n)@ == ProtoErrorView::PayloadTooLarge(n),
        (ProtoError::InvalidPayload { field_type: t, reason: why })@ == (
        ProtoErrorView::InvalidPayload { field_type: t, reason: why@ }),
        Header::SIZE == 5,
{
}

} // verus!
