//! Frames: what the multiplexer puts on its byte channel.

use crate::bytes;
use crate::bytes::{length_field, push_le32, read_le32};
use crate::transport::FdDir;
use vstd::prelude::*;

verus! {

/// Kind byte of a frame with a protocol message.
pub const KIND_CONTROL: u8 = 1;

/// Kind byte of a frame that announces streams.
pub const KIND_FDS: u8 = 2;

/// Kind byte of a frame with bytes of a stream.
pub const KIND_STREAM_DATA: u8 = 3;

/// Kind byte of a frame that ends a stream.
pub const KIND_STREAM_CLOSE: u8 = 4;

/// Kind byte of a frame with a protocol message that waits for its descriptors.
pub const KIND_CARRIED: u8 = 5;

/// A frame to send.
pub enum OutFrame {
    /// A protocol message, encoded.
    Control(Vec<u8>),
    /// A protocol message to which descriptors belong, encoded. It waits for the frame that
    /// announces their streams.
    Carried(Vec<u8>),
    /// An announcement of streams, encoded.
    Fds(Vec<u8>),
    /// Bytes of a stream.
    StreamData(u32, Vec<u8>),
    /// The end of a stream.
    StreamClose(u32),
}

/// An [`OutFrame`] as a mathematical value.
#[verifier::ext_equal]
pub enum OutFrameView {
    Control(Seq<u8>),
    Carried(Seq<u8>),
    Fds(Seq<u8>),
    StreamData(u32, Seq<u8>),
    StreamClose(u32),
}

impl View for OutFrame {
    type V = OutFrameView;

    open spec fn view(&self) -> OutFrameView {
        match *self {
            OutFrame::Control(buf) => OutFrameView::Control(buf@),
            OutFrame::Carried(buf) => OutFrameView::Carried(buf@),
            OutFrame::Fds(buf) => OutFrameView::Fds(buf@),
            OutFrame::StreamData(id, buf) => OutFrameView::StreamData(id, buf@),
            OutFrame::StreamClose(id) => OutFrameView::StreamClose(id),
        }
    }
}

/// A frame as it came off the channel, of whatever kind.
pub struct RawFrame {
    /// The kind byte.
    pub kind: u8,
    /// The stream that the frame belongs to, if it belongs to one.
    pub id: u32,
    /// The bytes that the frame carries.
    pub payload: Vec<u8>,
}

/// A [`RawFrame`] as a mathematical value.
#[verifier::ext_equal]
pub struct RawFrameView {
    pub kind: u8,
    pub id: u32,
    pub payload: Seq<u8>,
}

impl View for RawFrame {
    type V = RawFrameView;

    open spec fn view(&self) -> RawFrameView {
        RawFrameView { kind: self.kind, id: self.id, payload: self.payload@ }
    }
}

impl OutFrameView {
    /// The frame with its kind byte.
    pub open spec fn raw(self) -> RawFrameView {
        match self {
            OutFrameView::Control(payload) => RawFrameView { kind: KIND_CONTROL, id: 0, payload },
            OutFrameView::Carried(payload) => RawFrameView { kind: KIND_CARRIED, id: 0, payload },
            OutFrameView::Fds(payload) => RawFrameView { kind: KIND_FDS, id: 0, payload },
            OutFrameView::StreamData(id, payload) => RawFrameView {
                kind: KIND_STREAM_DATA,
                id,
                payload,
            },
            OutFrameView::StreamClose(id) => RawFrameView {
                kind: KIND_STREAM_CLOSE,
                id,
                payload: Seq::empty(),
            },
        }
    }
}

impl RawFrameView {
    /// The frame on the channel: kind, stream id, the low 32 bits of the payload's length,
    /// and the payload.
    pub open spec fn bytes(self) -> Seq<u8> {
        seq![self.kind] + bytes::le32(self.id) + bytes::le32(bytes::len32(self.payload.len()))
            + self.payload
    }
}

/// The first nine bytes of a frame.
#[derive(Clone, Copy, Debug, PartialEq, Eq, Structural)]
pub struct FrameHeader {
    /// The kind byte.
    pub kind: u8,
    /// The stream id.
    pub id: u32,
    /// How many bytes follow.
    pub len: u32,
}

/// The header that nine bytes hold.
pub open spec fn frame_header_of(buf: Seq<u8>) -> FrameHeader {
    FrameHeader {
        kind: buf[0],
        id: bytes::le32_value(buf.subrange(1, 5)),
        len: bytes::le32_value(buf.subrange(5, 9)),
    }
}

impl FrameHeader {
    /// How many bytes a frame header has.
    pub const SIZE: usize = 9;

    /// Reads a frame header.
    pub fn decode(buf: &[u8; 9]) -> (h: FrameHeader)
        ensures
            h == frame_header_of(buf@),
    {
        let b = buf.as_slice();
        FrameHeader { kind: b[0], id: read_le32(b, 1), len: read_le32(b, 5) }
    }

    /// The frame with this header and the bytes that followed it.
    pub fn with_payload(self, payload: Vec<u8>) -> (f: RawFrame)
        requires
            payload@.len() == self.len,
        ensures
            f@ == (RawFrameView { kind: self.kind, id: self.id, payload: payload@ }),
    {
        RawFrame { kind: self.kind, id: self.id, payload }
    }
}

/// The bytes of a frame with the given kind, stream and payload.
fn frame_bytes(kind: u8, id: u32, payload: &[u8]) -> (out: Vec<u8>)
    ensures
        out@ == (RawFrameView { kind, id, payload: payload@ }).bytes(),
{
    let mut out: Vec<u8> = Vec::new();
    out.push(kind);
    push_le32(&mut out, id);
    push_le32(&mut out, length_field(payload.len()));
    out.extend_from_slice(payload);
    assert(out@ =~= (RawFrameView { kind, id, payload: payload@ }).bytes());
    out
}

impl OutFrame {
    /// The frame on the channel.
    pub fn encode(&self) -> (out: Vec<u8>)
        ensures
            out@ == self@.raw().bytes(),
    {
        match self {
            OutFrame::Control(buf) => frame_bytes(KIND_CONTROL, 0, buf.as_slice()),
            OutFrame::Carried(buf) => frame_bytes(KIND_CARRIED, 0, buf.as_slice()),
            OutFrame::Fds(buf) => frame_bytes(KIND_FDS, 0, buf.as_slice()),
            OutFrame::StreamData(id, buf) => frame_bytes(KIND_STREAM_DATA, *id, buf.as_slice()),
            OutFrame::StreamClose(id) => {
                let empty: [u8; 0] = [];
                assert(empty@ =~= Seq::empty());
                frame_bytes(KIND_STREAM_CLOSE, *id, empty.as_slice())
            },
        }
    }
}

/// The byte that stands for a direction.
pub open spec fn dir_wire(dir: FdDir) -> u8 {
    match dir {
        FdDir::Read => 0,
        FdDir::Write => 1,
        FdDir::ReadWrite => 2,
    }
}

/// The direction that a byte stands for.
pub open spec fn dir_of(b: u8) -> Option<FdDir> {
    if b == 0 {
        Some(FdDir::Read)
    } else if b == 1 {
        Some(FdDir::Write)
    } else if b == 2 {
        Some(FdDir::ReadWrite)
    } else {
        None
    }
}

/// An announcement of streams: five bytes for each, its id and its direction.
pub open spec fn fds_bytes(list: Seq<(u32, FdDir)>) -> Seq<u8>
    decreases list.len(),
{
    if list.len() == 0 {
        Seq::empty()
    } else {
        bytes::le32(list[0].0).push(dir_wire(list[0].1)) + fds_bytes(list.drop_first())
    }
}

/// The streams that an announcement names. One with an unknown direction is passed over,
/// and so are bytes at the end that are too few for a stream.
pub open spec fn fds_of(buf: Seq<u8>) -> Seq<(u32, FdDir)>
    decreases buf.len(),
{
    if buf.len() < 5 {
        Seq::empty()
    } else {
        let rest = fds_of(buf.skip(5));
        match dir_of(buf[4]) {
            Some(dir) => seq![(bytes::le32_value(buf.take(4)), dir)] + rest,
            None => rest,
        }
    }
}

/// Encodes an announcement of streams.
pub fn encode_fds(list: &Vec<(u32, FdDir)>) -> (out: Vec<u8>)
    ensures
        out@ == fds_bytes(list@),
{
    let mut out: Vec<u8> = Vec::new();
    let mut i: usize = 0;
    assert(list@.skip(0) =~= list@);
    assert(out@ + fds_bytes(list@) =~= fds_bytes(list@));
    while i < list.len()
        invariant
            i <= list@.len(),
            out@ + fds_bytes(list@.skip(i as int)) == fds_bytes(list@),
        decreases list@.len() - i,
    {
        let ghost before = out@;
        let ghost rest = list@.skip(i as int);
        let (id, dir) = list[i];
        push_le32(&mut out, id);
        out.push(
            match dir {
                FdDir::Read => 0,
                FdDir::Write => 1,
                FdDir::ReadWrite => 2,
            },
        );
        assert(rest[0] == list@[i as int]);
        assert(rest.drop_first() =~= list@.skip(i + 1));
        assert(out@ + fds_bytes(list@.skip(i + 1)) =~= before + fds_bytes(rest));
        i = i + 1;
    }
    assert(fds_bytes(list@.skip(i as int)) =~= Seq::empty());
    assert(out@ + Seq::<u8>::empty() =~= out@);
    out
}

/// Reads an announcement of streams.
pub fn decode_fds(buf: &[u8]) -> (list: Vec<(u32, FdDir)>)
    ensures
        list@ == fds_of(buf@),
{
    let mut list: Vec<(u32, FdDir)> = Vec::new();
    let mut i: usize = 0;
    assert(buf@.skip(0) =~= buf@);
    assert(list@ + fds_of(buf@) =~= fds_of(buf@));
    while buf.len() - i >= 5
        invariant
            i <= buf@.len(),
            list@ + fds_of(buf@.skip(i as int)) == fds_of(buf@),
        decreases buf@.len() - i,
    {
        let ghost before = list@;
        let ghost rest = buf@.skip(i as int);
        let id: u32 = read_le32(buf, i);
        let dir: Option<FdDir> = match buf[i + 4] {
            0 => Some(FdDir::Read),
            1 => Some(FdDir::Write),
            2 => Some(FdDir::ReadWrite),
            _ => None,
        };
        assert(rest.take(4) =~= buf@.subrange(i as int, i + 4));
        assert(rest[4] == buf@[i + 4]);
        assert(rest.skip(5) =~= buf@.skip(i + 5));
        match dir {
            Some(dir) => {
                list.push((id, dir));
            },
            None => {},
        }
        assert(list@ + fds_of(buf@.skip(i + 5)) =~= before + fds_of(rest));
        i = i + 5;
    }
    assert(fds_of(buf@.skip(i as int)) =~= Seq::empty());
    assert(list@ + Seq::<(u32, FdDir)>::empty() =~= list@);
    list
}

} // verus!
