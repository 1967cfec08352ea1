//! What holds of the multiplexer as a whole.

use super::frame;
use super::frame::{
    FrameHeader, OutFrame, OutFrameView, RawFrame, RawFrameView, KIND_STREAM_CLOSE, KIND_STREAM_DATA,
};
use super::streams;
use super::streams::{
    Route, RouteView, SendAction, SendActionView, Side, StreamTable, TableView,
};
use crate::bytes;
use crate::client;
use crate::client::{ClientRequestView, OutgoingView};
use crate::daemon::{ConfigStepView, ConfigurationView, DaemonConfigView};
use crate::laws;
use crate::proto::laws::{message_roundtrip, whole_messages_only};
use crate::proto::{FieldType, Message, MessageView, MAX_PAYLOAD};
use crate::transport::{FdDir, IncomingView, Received, ReceivedView};
use vstd::arithmetic::div_mod::{lemma_add_mod_noop_right, lemma_fundamental_div_mod};
use vstd::prelude::*;
use vstd::utf8::*;

verus! {

/// The two sides of a connection never give their streams the same number, however many
/// streams either of them has had.
pub proof fn sides_never_collide(n: nat, m: nat)
    ensures
        streams::id_after(streams::first_id(Side::Dialer), n) != streams::id_after(
            streams::first_id(Side::Listener),
            m,
        ),
{
    assert((2 * n) % 0x1_0000_0000 % 2 == 0);
    assert((1 + 2 * m) % 0x1_0000_0000 % 2 == 1);
}

/// One side gives a number out again only after it has given out all of its numbers.
pub proof fn numbers_last(side: Side, n: nat, m: nat)
    requires
        n < m < n + 0x8000_0000,
    ensures
        streams::id_after(streams::first_id(side), n) != streams::id_after(
            streams::first_id(side),
            m,
        ),
{
    let f = streams::first_id(side) as int;
    let d = 2 * (m - n);
    assert(0 < d < 0x1_0000_0000);
    assert((f + 2 * m) == (f + 2 * n) + d);
}

/// An announcement of streams is read as it was meant.
pub proof fn announcement_roundtrip(list: Seq<(u32, FdDir)>)
    ensures
        frame::fds_of(frame::fds_bytes(list)) == list,
    decreases list.len(),
{
    let buf = frame::fds_bytes(list);
    if list.len() > 0 {
        let rest = list.drop_first();
        announcement_roundtrip(rest);
        bytes::le32_roundtrip(list[0].0);
        assert(buf.take(4) =~= bytes::le32(list[0].0));
        assert(buf[4] == frame::dir_wire(list[0].1));
        assert(buf.skip(5) =~= frame::fds_bytes(rest));
        assert(seq![list[0]] + rest =~= list);
    }
}

/// Frames one after the other on the channel.
pub open spec fn channel_bytes(frames: Seq<RawFrameView>) -> Seq<u8>
    decreases frames.len(),
{
    if frames.len() == 0 {
        Seq::empty()
    } else {
        frames[0].bytes() + channel_bytes(frames.drop_first())
    }
}

/// The frames that a reader finds on the channel: nine bytes of header, then as many
/// bytes as it says, again and again until the channel ends.
pub open spec fn frames_of(stream: Seq<u8>) -> Seq<RawFrameView>
    decreases stream.len(),
{
    if stream.len() < 9 {
        Seq::empty()
    } else {
        let h = frame::frame_header_of(stream.take(9));
        if stream.len() < 9 + h.len {
            Seq::empty()
        } else {
            let f = RawFrameView {
                kind: h.kind,
                id: h.id,
                payload: stream.subrange(9, 9 + h.len),
            };
            seq![f] + frames_of(stream.skip(9 + h.len))
        }
    }
}

/// The first nine bytes of a frame's bytes are read as the frame's kind, number and length.
proof fn header_is_read(f: RawFrameView, buf: Seq<u8>)
    requires
        f.payload.len() < 0x1_0000_0000,
        buf.len() >= 9,
        buf.take(9) == f.bytes().take(9),
    ensures
        frame::frame_header_of(buf.take(9)) == (frame::FrameHeader {
            kind: f.kind,
            id: f.id,
            len: f.payload.len() as u32,
        }),
{
    let head = f.bytes().take(9);
    let len = bytes::len32(f.payload.len());
    bytes::le32_roundtrip(f.id);
    bytes::le32_roundtrip(len);
    assert(head.subrange(1, 5) =~= bytes::le32(f.id));
    assert(head.subrange(5, 9) =~= bytes::le32(len));
}

/// A frame and more on the channel: the frame is read, then the rest.
proof fn frame_is_read(f: RawFrameView, rest: Seq<u8>)
    requires
        f.payload.len() < 0x1_0000_0000,
    ensures
        frames_of(f.bytes() + rest) == seq![f] + frames_of(rest),
{
    let stream = f.bytes() + rest;
    let len = f.payload.len() as int;
    assert(f.bytes().len() == 9 + len);
    assert(stream.take(9) =~= f.bytes().take(9));
    header_is_read(f, stream);
    assert(stream.subrange(9, 9 + len) =~= f.payload);
    assert(stream.skip(9 + len) =~= rest);
}

/// A frame that the channel breaks off is not seen.
proof fn cut_frame_is_not_read(cut: RawFrameView, n: int)
    requires
        cut.payload.len() < 0x1_0000_0000,
        0 <= n < cut.bytes().len(),
    ensures
        frames_of(cut.bytes().take(n)) == Seq::<RawFrameView>::empty(),
{
    let tail = cut.bytes().take(n);
    assert(cut.bytes().len() == 9 + cut.payload.len());
    if n >= 9 {
        assert(tail.take(9) =~= cut.bytes().take(9));
        header_is_read(cut, tail);
    }
}

/// Frames are read off the channel as they were put onto it; and a frame that the channel
/// breaks off is not seen at all.
pub proof fn channel_roundtrip(frames: Seq<RawFrameView>, cut: RawFrameView, n: int)
    requires
        forall|i: int| 0 <= i < frames.len() ==> (#[trigger] frames[i]).payload.len()
            < 0x1_0000_0000,
        cut.payload.len() < 0x1_0000_0000,
        0 <= n < cut.bytes().len(),
    ensures
        frames_of(channel_bytes(frames) + cut.bytes().take(n)) == frames,
    decreases frames.len(),
{
    let tail = cut.bytes().take(n);
    let stream = channel_bytes(frames) + tail;
    if frames.len() == 0 {
        assert(stream =~= tail);
        cut_frame_is_not_read(cut, n);
        assert(frames =~= Seq::empty());
    } else {
        let f = frames[0];
        let rest = frames.drop_first();
        assert forall|i: int| 0 <= i < rest.len() implies (#[trigger] rest[i]).payload.len()
            < 0x1_0000_0000 by {
            assert(rest[i] == frames[i + 1]);
        }
        channel_roundtrip(rest, cut, n);
        let more = channel_bytes(rest);
        assert(channel_bytes(frames) == f.bytes() + more);
        assert((f.bytes() + more) + tail =~= f.bytes() + (more + tail));
        frame_is_read(f, more + tail);
        assert(seq![f] + rest =~= frames);
    }
}

/// Whether a message can cross the multiplexer: its payload is within the limit, and its
/// descriptors can be counted.
pub open spec fn crosses(o: OutgoingView) -> bool {
    o.message.payload.len() <= MAX_PAYLOAD && o.dirs.len() < 0x1_0000_0000
}

/// The frames for messages that are sent one after the other, where `from` is the number
/// of the first stream.
pub open spec fn sent_frames(from: u32, list: Seq<OutgoingView>) -> Seq<OutFrameView>
    decreases list.len(),
{
    if list.len() == 0 {
        Seq::empty()
    } else {
        streams::send_frames(from, list[0].message, list[0].dirs) + sent_frames(
            streams::id_after(from, list[0].dirs.len()),
            list.drop_first(),
        )
    }
}

/// Frames with their kind bytes.
pub open spec fn raw_frames(frames: Seq<OutFrameView>) -> Seq<RawFrameView> {
    frames.map_values(|f: OutFrameView| f.raw())
}

/// What a session receives for a route, if anything, where `fds` are the stand-ins that
/// were made for the streams it opens.
pub open spec fn surfaced<F>(route: RouteView<()>, fds: Seq<F>) -> Option<IncomingView<F>> {
    match route {
        RouteView::Deliver(message) => Some(
            IncomingView::Message(ReceivedView { message, fds: Seq::empty() }),
        ),
        RouteView::Open(message, _) => Some(
            IncomingView::Message(ReceivedView { message, fds }),
        ),
        _ => None,
    }
}

/// What a session receives for frames that arrive one after the other at a receiver that
/// keeps `table`.
pub open spec fn surfaced_from<F>(
    table: TableView<()>,
    frames: Seq<RawFrameView>,
    fds: Seq<F>,
) -> Seq<IncomingView<F>>
    decreases frames.len(),
{
    if frames.len() == 0 {
        Seq::empty()
    } else {
        let (next, route) = streams::routed(table, frames[0]);
        let rest = surfaced_from(next, frames.drop_first(), fds);
        match surfaced(route, fds) {
            Some(event) => seq![event] + rest,
            None => rest,
        }
    }
}

/// What a session receives for frames that arrive one after the other from the start.
pub open spec fn surfaced_all<F>(frames: Seq<RawFrameView>, fds: Seq<F>) -> Seq<IncomingView<F>> {
    surfaced_from(TableView::empty(), frames, fds)
}

/// One message that can cross is received as it was sent, before whatever follows it, and
/// leaves nothing behind.
proof fn message_crosses<F>(from: u32, o: OutgoingView, later: Seq<RawFrameView>, fds: Seq<F>)
    requires
        crosses(o),
    ensures
        surfaced_all(raw_frames(streams::send_frames(from, o.message, o.dirs)) + later, fds)
            == seq![laws::arrival(o, fds)] + surfaced_all(later, fds),
{
    let sent = streams::send_frames(from, o.message, o.dirs);
    let frames = raw_frames(sent) + later;
    let empty = TableView::<()>::empty();
    let count = bytes::len32(o.dirs.len());
    message_roundtrip(o.message);
    if o.dirs.len() == 0 {
        assert(frames[0] == streams::control_view(o.message).raw());
        assert(frames.drop_first() =~= later);
    } else {
        let announced = streams::numbered(from, o.dirs);
        announcement_roundtrip(announced);
        let last = streams::announcement(announced).raw();
        if o.message == MessageView::fds(count) {
            assert(frames[0] == last);
            assert(frames.drop_first() =~= later);
            assert(streams::routed(empty, last).0 =~= empty);
        } else {
            let first = OutFrameView::Carried(o.message.wire()).raw();
            let held = TableView { held: Some(o.message), ..empty };
            let rest = seq![last] + later;
            assert(frames[0] == first);
            assert(frames.drop_first() =~= rest);
            assert(streams::routed(empty, first) == (held, RouteView::<()>::Hold));
            assert(rest[0] == last);
            assert(rest.drop_first() =~= later);
            assert(streams::routed(held, last).0 =~= empty);
            assert(surfaced_from(empty, frames, fds) == surfaced_from(held, rest, fds));
        }
    }
}

/// Neither side can tell a multiplexed connection from one that passes descriptors:
/// messages that can cross are received as they were sent, in order, each with one
/// stand-in per descriptor that it came with.
pub proof fn multiplexing_is_transparent<F>(from: u32, list: Seq<OutgoingView>, fds: Seq<F>)
    requires
        forall|i: int| 0 <= i < list.len() ==> crosses(#[trigger] list[i]),
    ensures
        surfaced_all(raw_frames(sent_frames(from, list)), fds) == laws::delivered(list, fds),
    decreases list.len(),
{
    let frames = raw_frames(sent_frames(from, list));
    if list.len() == 0 {
        assert(laws::delivered(list, fds) =~= Seq::empty());
    } else {
        let o = list[0];
        let rest = list.drop_first();
        let next = streams::id_after(from, o.dirs.len());
        assert(crosses(list[0]));
        assert forall|i: int| 0 <= i < rest.len() implies crosses(#[trigger] rest[i]) by {
            assert(rest[i] == list[i + 1]);
        }
        multiplexing_is_transparent(next, rest, fds);
        let later = raw_frames(sent_frames(next, rest));
        assert(frames =~= raw_frames(streams::send_frames(from, o.message, o.dirs)) + later);
        message_crosses(from, o, later, fds);
        assert(seq![laws::arrival(o, fds)] + laws::delivered(rest, fds) =~= laws::delivered(
            list,
            fds,
        ));
    }
}

/// Each descriptor gets its own stand-in: what is announced is opened, in order, with what
/// the other side does turned round.
pub proof fn each_descriptor_is_opened<T>(table: TableView<T>, from: u32, dirs: Seq<FdDir>)
    ensures
        ({
            let announced = streams::numbered(from, dirs);
            streams::routed(table, streams::announcement(announced).raw()).1 matches RouteView::Open(
                _,
                list,
            ) && list.len() == dirs.len() && forall|i: int|
                0 <= i < dirs.len() ==> #[trigger] list[i] == (
                    streams::id_after(from, i as nat),
                    dirs[i].spec_invert(),
                )
        }),
{
    announcement_roundtrip(streams::numbered(from, dirs));
}

/// The whole way over a byte channel: what a client asks for is what the daemon runs, as
/// far as its policy allows, though no descriptor ever travelled. The texts have to fit
/// into messages.
pub proof fn configuration_crosses<F>(
    from: u32,
    config: DaemonConfigView,
    request: ClientRequestView,
    secret: Option<Seq<char>>,
    fds: Seq<F>,
)
    requires
        secret matches Some(s) ==> encode_utf8(s).len() <= MAX_PAYLOAD,
        request.winsize matches Some(dims) ==> dims.len() == 4,
        fds.len() == 3,
        forall|i: int| 0 <= i < request.args.len() ==> encode_utf8(#[trigger] request.args[i]).len()
            <= MAX_PAYLOAD,
        forall|i: int| 0 <= i < request.env.len() ==> encode_utf8(#[trigger] request.env[i]).len()
            <= MAX_PAYLOAD,
    ensures
        ({
            let sent = raw_frames(sent_frames(from, client::configuration(request, secret)));
            let received = frames_of(channel_bytes(sent));
            ConfigurationView::start(config).run(config, surfaced_all(received, fds))
                == ConfigStepView::Complete(laws::granted(config, request, fds))
        }),
{
    let list = client::configuration(request, secret);
    let sent = raw_frames(sent_frames(from, list));
    let s = client::secret_messages(secret).len() as int;
    let n = s + request.env.len();
    let k = n + request.args.len();
    assert forall|i: int| 0 <= i < list.len() implies crosses(#[trigger] list[i])
        && list[i].dirs.len() <= 3 by {
        if i < s {
            assert(list[i] == client::secret_messages(secret)[i]);
        } else if i < n {
            assert(list[i] == client::plain(
                MessageView::of_text(FieldType::Env, request.env[i - s]),
            ));
        } else if i < k {
            assert(list[i] == client::plain(
                MessageView::of_text(FieldType::Arg, request.args[i - n]),
            ));
        }
    }
    frames_are_small(from, list);
    let nothing = RawFrameView { kind: 0, id: 0, payload: Seq::empty() };
    channel_roundtrip(sent, nothing, 0);
    assert(channel_bytes(sent) + nothing.bytes().take(0) =~= channel_bytes(sent));
    multiplexing_is_transparent(from, list, fds);
    laws::configuration_is_granted(config, request, secret, fds);
}

/// The frames of messages that can cross are small enough for the channel, where a
/// message brings at most three descriptors.
proof fn frames_are_small(from: u32, list: Seq<OutgoingView>)
    requires
        forall|i: int| 0 <= i < list.len() ==> crosses(#[trigger] list[i]) && list[i].dirs.len()
            <= 3,
    ensures
        ({
            let sent = raw_frames(sent_frames(from, list));
            forall|i: int| 0 <= i < sent.len() ==> (#[trigger] sent[i]).payload.len()
                < 0x1_0000_0000
        }),
    decreases list.len(),
{
    if list.len() > 0 {
        let o = list[0];
        let rest = list.drop_first();
        let next = streams::id_after(from, o.dirs.len());
        assert(crosses(list[0]));
        assert forall|i: int| 0 <= i < rest.len() implies crosses(#[trigger] rest[i])
            && rest[i].dirs.len() <= 3 by {
            assert(rest[i] == list[i + 1]);
        }
        frames_are_small(next, rest);
        let sent = raw_frames(sent_frames(from, list));
        let first = raw_frames(streams::send_frames(from, o.message, o.dirs));
        let later = raw_frames(sent_frames(next, rest));
        announcement_length(streams::numbered(from, o.dirs));
        assert(sent =~= first + later);
        assert forall|i: int| 0 <= i < sent.len() implies (#[trigger] sent[i]).payload.len()
            < 0x1_0000_0000 by {
            if i >= first.len() {
                assert(sent[i] == later[i - first.len()]);
            } else {
                assert(sent[i] == first[i]);
            }
        }
    }
}

/// An announcement has five bytes for each stream.
proof fn announcement_length(list: Seq<(u32, FdDir)>)
    ensures
        frame::fds_bytes(list).len() == 5 * list.len(),
    decreases list.len(),
{
    if list.len() > 0 {
        announcement_length(list.drop_first());
    }
}

/// The streams after those that were opened are registered, each with the entrance of
/// its pump.
pub open spec fn registered_all<T>(
    table: TableView<T>,
    list: Seq<(u32, FdDir)>,
    ends: Seq<T>,
) -> TableView<T>
    decreases list.len(),
{
    if list.len() == 0 {
        table
    } else {
        let k = list.len() - 1;
        streams::registered(
            registered_all(table, list.drop_last(), ends),
            list[k].0,
            list[k].1,
            ends[k],
        )
    }
}

/// Every stream that this side writes is registered.
proof fn registering_reaches<T>(
    table: TableView<T>,
    list: Seq<(u32, FdDir)>,
    ends: Seq<T>,
    i: int,
)
    requires
        0 <= i < list.len(),
        list[i].1.spec_writes(),
    ensures
        registered_all(table, list, ends).streams.dom().contains(list[i].0),
    decreases list.len(),
{
    if i < list.len() - 1 {
        assert(list.drop_last()[i] == list[i]);
        registering_reaches(table, list.drop_last(), ends, i);
    }
}

/// No byte is lost at the start: once the streams that a frame opens are registered, data
/// of every stream that the other side reads finds its pump.
pub proof fn data_finds_its_pump<T>(
    table: TableView<T>,
    from: u32,
    dirs: Seq<FdDir>,
    ends: Seq<T>,
    i: int,
    data: Seq<u8>,
)
    requires
        0 <= i < dirs.len(),
        dirs[i].spec_reads(),
    ensures
        ({
            let announced = streams::announcement(streams::numbered(from, dirs));
            let id = streams::id_after(from, i as nat);
            streams::routed(table, announced.raw()).1 matches RouteView::Open(_, list)
                && streams::routed(
                registered_all(table, list, ends),
                OutFrameView::StreamData(id, data).raw(),
            ).1 == RouteView::<T>::Data(id, data)
        }),
{
    let announced = streams::numbered(from, dirs);
    announcement_roundtrip(announced);
    let list = streams::opened(announced);
    assert(list[i].1 == dirs[i].spec_invert());
    registering_reaches(table, list, ends, i);
}

/// What the receiver keeps after frames, and where the frames went.
pub open spec fn routed_all<T>(table: TableView<T>, frames: Seq<RawFrameView>) -> (
    TableView<T>,
    Seq<RouteView<T>>,
)
    decreases frames.len(),
{
    if frames.len() == 0 {
        (table, Seq::empty())
    } else {
        let (left, routes) = routed_all(table, frames.drop_last());
        let (last, route) = streams::routed(left, frames.last());
        (last, routes.push(route))
    }
}

/// The bytes that went to the pump of a stream.
pub open spec fn fed<T>(routes: Seq<RouteView<T>>, id: u32) -> Seq<u8>
    decreases routes.len(),
{
    if routes.len() == 0 {
        Seq::empty()
    } else {
        let before = fed(routes.drop_last(), id);
        match routes.last() {
            RouteView::Data(to, data) => if to == id {
                before + data
            } else {
                before
            },
            _ => before,
        }
    }
}

/// The bytes of a stream in frames.
pub open spec fn stream_bytes(frames: Seq<RawFrameView>, id: u32) -> Seq<u8>
    decreases frames.len(),
{
    if frames.len() == 0 {
        Seq::empty()
    } else {
        let before = stream_bytes(frames.drop_last(), id);
        let f = frames.last();
        if f.kind == KIND_STREAM_DATA && f.id == id {
            before + f.payload
        } else {
            before
        }
    }
}

/// Whether a frame ends a stream.
pub open spec fn closes(f: RawFrameView, id: u32) -> bool {
    f.kind == KIND_STREAM_CLOSE && f.id == id
}

/// As long as a stream is open its pump gets the stream's bytes, all of them, in order,
/// and no others, whatever else is on the channel.
pub proof fn open_stream_is_faithful<T>(table: TableView<T>, frames: Seq<RawFrameView>, id: u32)
    requires
        table.streams.dom().contains(id),
        forall|i: int| 0 <= i < frames.len() ==> !closes(#[trigger] frames[i], id),
    ensures
        routed_all(table, frames).0.streams.dom().contains(id),
        fed(routed_all(table, frames).1, id) == stream_bytes(frames, id),
    decreases frames.len(),
{
    if frames.len() > 0 {
        let before = frames.drop_last();
        assert(!closes(frames[frames.len() - 1], id));
        assert forall|i: int| 0 <= i < before.len() implies !closes(#[trigger] before[i], id) by {
            assert(before[i] == frames[i]);
        }
        open_stream_is_faithful(table, before, id);
        let (left, routes) = routed_all(table, before);
        let (last, route) = streams::routed(left, frames.last());
        assert(routes.push(route).drop_last() =~= routes);
    }
}

/// After the end of a stream its pump gets nothing more: the stream takes no data until
/// its number is registered anew.
pub proof fn closed_stream_is_silent<T>(table: TableView<T>, frames: Seq<RawFrameView>, id: u32)
    ensures
        ({
            let left = streams::routed(table, OutFrameView::StreamClose(id).raw()).0;
            &&& !routed_all(left, frames).0.streams.dom().contains(id)
            &&& fed(routed_all(left, frames).1, id) == Seq::<u8>::empty()
        }),
    decreases frames.len(),
{
    let left = streams::routed(table, OutFrameView::StreamClose(id).raw()).0;
    if frames.len() > 0 {
        closed_stream_is_silent(table, frames.drop_last(), id);
        let (now, routes) = routed_all(left, frames.drop_last());
        let (last, route) = streams::routed(now, frames.last());
        assert(routes.push(route).drop_last() =~= routes);
    }
}

/// The stream that a frame belongs to, if it belongs to one.
pub open spec fn stream_of(f: OutFrameView) -> Option<u32> {
    match f {
        OutFrameView::StreamData(id, _) => Some(id),
        OutFrameView::StreamClose(id) => Some(id),
        _ => None,
    }
}

/// Whether a number is that of one of these streams.
pub open spec fn names(list: Seq<(u32, FdDir)>, id: u32) -> bool {
    exists|i: int| 0 <= i < list.len() && (#[trigger] list[i]).0 == id
}

/// What happens at a sender while a message is sent.
#[verifier::ext_equal]
pub enum SenderEvent {
    /// The sender did the next thing that sends the message.
    Did(SendActionView),
    /// A pump of the message's descriptors queued a frame.
    Pumped(OutFrameView),
    /// Something else queued a frame.
    Other(OutFrameView),
}

/// What the sender did, among all that happened.
pub open spec fn done(log: Seq<SenderEvent>) -> Seq<SendActionView>
    decreases log.len(),
{
    if log.len() == 0 {
        Seq::empty()
    } else {
        let before = done(log.drop_last());
        match log.last() {
            SenderEvent::Did(a) => before.push(a),
            _ => before,
        }
    }
}

/// The frames that were queued, in order. The channel carries them in this order.
pub open spec fn queued(log: Seq<SenderEvent>) -> Seq<OutFrameView>
    decreases log.len(),
{
    if log.len() == 0 {
        Seq::empty()
    } else {
        let before = queued(log.drop_last());
        match log.last() {
            SenderEvent::Did(SendActionView::Queue(f)) => before.push(f),
            SenderEvent::Did(SendActionView::Start(_, _)) => before,
            SenderEvent::Pumped(f) => before.push(f),
            SenderEvent::Other(f) => before.push(f),
        }
    }
}

/// Whether this can happen while a message with the given streams is sent: the sender does
/// what is to be done in order, perhaps not all of it yet; a pump queues frames of its own
/// stream, and only after it was started; and nothing else queues frames of the streams.
pub open spec fn can_happen(
    list: Seq<(u32, FdDir)>,
    actions: Seq<SendActionView>,
    log: Seq<SenderEvent>,
) -> bool
    decreases log.len(),
{
    log.len() == 0 || {
        &&& can_happen(list, actions, log.drop_last())
        &&& match log.last() {
            SenderEvent::Did(a) => {
                let n = done(log.drop_last()).len();
                n < actions.len() && a == actions[n as int]
            },
            SenderEvent::Pumped(f) => stream_of(f) is Some && exists|dir: FdDir|
                #[trigger] done(log.drop_last()).contains(
                    SendActionView::Start(stream_of(f).unwrap(), dir),
                ),
            SenderEvent::Other(f) => stream_of(f) matches Some(id) ==> !names(list, id),
        }
    }
}

/// What was done is the start of what is to be done.
proof fn done_in_order(
    list: Seq<(u32, FdDir)>,
    actions: Seq<SendActionView>,
    log: Seq<SenderEvent>,
)
    requires
        can_happen(list, actions, log),
    ensures
        done(log).len() <= actions.len(),
        done(log) == actions.take(done(log).len() as int),
    decreases log.len(),
{
    if log.len() > 0 {
        done_in_order(list, actions, log.drop_last());
        assert(done(log) =~= actions.take(done(log).len() as int));
    } else {
        assert(actions.take(0) =~= Seq::empty());
    }
}

/// A frame that was to be queued, and was, is among those that were queued.
proof fn queued_frames_are_there(log: Seq<SenderEvent>, f: OutFrameView)
    requires
        done(log).contains(SendActionView::Queue(f)),
    ensures
        queued(log).contains(f),
    decreases log.len(),
{
    let before = log.drop_last();
    if done(before).contains(SendActionView::Queue(f)) {
        queued_frames_are_there(before, f);
        let k = choose|k: int| 0 <= k < queued(before).len() && queued(before)[k] == f;
        assert(queued(log)[k] == f);
    } else {
        let k = choose|k: int| 0 <= k < done(log).len() && done(log)[k] == SendActionView::Queue(
            f,
        );
        if k < done(before).len() {
            assert(done(before)[k] == SendActionView::Queue(f));
        }
        assert(log.last() == SenderEvent::Did(SendActionView::Queue(f)));
        assert(queued(log).last() == f);
    }
}

/// Once a pump was started the announcement is in the queue.
#[verifier::spinoff_prover]
proof fn announced_before_start(
    from: u32,
    m: MessageView,
    dirs: Seq<FdDir>,
    log: Seq<SenderEvent>,
    id: u32,
    dir: FdDir,
)
    requires
        can_happen(streams::numbered(from, dirs), streams::send_actions(from, m, dirs), log),
        done(log).contains(SendActionView::Start(id, dir)),
    ensures
        queued(log).contains(streams::announcement(streams::numbered(from, dirs))),
{
    let actions = streams::send_actions(from, m, dirs);
    done_in_order(streams::numbered(from, dirs), actions, log);
    let start = SendActionView::Start(id, dir);
    let k = choose|k: int| 0 <= k < done(log).len() && done(log)[k] == start;
    let frames = streams::send_frames(from, m, dirs);
    let last = frames.len() - 1;
    assert(actions[k] == start);
    assert(k <= last ==> actions[k] == SendActionView::Queue(frames[k]));
    assert(k > last);
    assert(dirs.len() > 0);
    assert(actions[last] == SendActionView::Queue(frames[last]));
    assert(done(log)[last] == SendActionView::Queue(frames[last]));
    queued_frames_are_there(log, frames[last]);
}

/// An announcement goes out before any data of its streams: whatever happens while a
/// message is sent, a frame of one of its streams has the announcement of all of them in
/// front of it on the channel.
pub proof fn announcement_goes_first(
    from: u32,
    m: MessageView,
    dirs: Seq<FdDir>,
    log: Seq<SenderEvent>,
    j: int,
)
    requires
        can_happen(streams::numbered(from, dirs), streams::send_actions(from, m, dirs), log),
        0 <= j < queued(log).len(),
        stream_of(queued(log)[j]) matches Some(id) && names(streams::numbered(from, dirs), id),
    ensures
        exists|i: int|
            0 <= i < j && #[trigger] queued(log)[i] == streams::announcement(
                streams::numbered(from, dirs),
            ),
    decreases log.len(),
{
    let list = streams::numbered(from, dirs);
    let actions = streams::send_actions(from, m, dirs);
    let before = log.drop_last();
    let n = queued(before).len() as int;
    if j < n {
        assert(queued(log)[j] == queued(before)[j]);
        announcement_goes_first(from, m, dirs, before, j);
        let i = choose|i: int|
            0 <= i < j && #[trigger] queued(before)[i] == streams::announcement(list);
        assert(queued(log)[i] == queued(before)[i]);
    } else {
        let f = queued(log)[j];
        let id = stream_of(f).unwrap();
        match log.last() {
            SenderEvent::Did(a) => {
                // What the sender itself queues belongs to no stream.
                let k = done(before).len() as int;
                assert(a == SendActionView::Queue(f));
                assert(actions[k] == a);
                assert(k < streams::send_frames(from, m, dirs).len());
                assert(streams::send_frames(from, m, dirs)[k] == f);
                assert(false);
            },
            SenderEvent::Pumped(g) => {
                let dir = choose|dir: FdDir|
                    #[trigger] done(before).contains(SendActionView::Start(id, dir));
                announced_before_start(from, m, dirs, before, id, dir);
                let i = choose|i: int|
                    0 <= i < n && queued(before)[i] == streams::announcement(list);
                assert(queued(log)[i] == queued(before)[i]);
            },
            SenderEvent::Other(_) => {},
        }
    }
}

/// The side that connects has the even numbers and the side that accepts the odd ones.
pub proof fn sides_have_their_numbers(n: nat)
    ensures
        streams::id_after(streams::first_id(Side::Dialer), 0) == 0,
        streams::id_after(streams::first_id(Side::Listener), 0) == 1,
        streams::id_after(streams::first_id(Side::Dialer), n) % 2 == 0,
        streams::id_after(streams::first_id(Side::Listener), n) % 2 == 1,
{
    let (a, b) = (2 * n as int, 1 + 2 * n as int);
    let m: int = 0x1_0000_0000;
    lemma_fundamental_div_mod(a, m);
    lemma_fundamental_div_mod(b, m);
    assert(a % m == 2 * (n - 0x8000_0000 * (a / m)));
    assert(b % m == 1 + 2 * (n - 0x8000_0000 * (b / m)));
    assert(streams::id_after(streams::first_id(Side::Dialer), n) == a % m);
    assert(streams::id_after(streams::first_id(Side::Listener), n) == b % m);
}

/// Each stream's number is two more than the one before, until the numbers start again.
pub proof fn numbers_count_on(from: u32, n: nat, m: nat)
    ensures
        streams::id_after(from, 0) == from,
        streams::id_after(from, 1) == from + 2 || streams::id_after(from, 1) == from + 2
            - 0x1_0000_0000,
        streams::id_after(streams::id_after(from, n), m) == streams::id_after(from, n + m),
{
    let size: int = 0x1_0000_0000;
    let far = from + 2 * n;
    lemma_add_mod_noop_right(2 * m as int, far, size);
    assert(streams::id_after(from, n) == far % size);
    assert((2 * m + far % size) % size == (from + 2 * (n + m)) % size);
}

/// The streams whose pumps are started, in order.
pub open spec fn started(actions: Seq<SendActionView>) -> Seq<(u32, FdDir)>
    decreases actions.len(),
{
    if actions.len() == 0 {
        Seq::empty()
    } else {
        let rest = started(actions.drop_first());
        match actions[0] {
            SendActionView::Start(id, dir) => seq![(id, dir)] + rest,
            SendActionView::Queue(_) => rest,
        }
    }
}

/// The frames that are queued, in order.
pub open spec fn frames_queued(actions: Seq<SendActionView>) -> Seq<OutFrameView>
    decreases actions.len(),
{
    if actions.len() == 0 {
        Seq::empty()
    } else {
        let rest = frames_queued(actions.drop_first());
        match actions[0] {
            SendActionView::Queue(f) => seq![f] + rest,
            SendActionView::Start(_, _) => rest,
        }
    }
}

/// Frames first, then starts: what is queued are the frames, and what is started are the
/// streams.
proof fn actions_come_apart(frames: Seq<OutFrameView>, list: Seq<(u32, FdDir)>)
    ensures
        frames_queued(streams::queues(frames) + streams::starts(list)) == frames,
        started(streams::queues(frames) + streams::starts(list)) == list,
    decreases frames.len() + list.len(),
{
    let all = streams::queues(frames) + streams::starts(list);
    if frames.len() > 0 {
        let rest = frames.drop_first();
        assert(all[0] == SendActionView::Queue(frames[0]));
        assert(all.drop_first() =~= streams::queues(rest) + streams::starts(list));
        actions_come_apart(rest, list);
        assert(seq![frames[0]] + rest =~= frames);
    } else if list.len() > 0 {
        let rest = list.drop_first();
        assert(all[0] == SendActionView::Start(list[0].0, list[0].1));
        assert(all.drop_first() =~= streams::queues(frames) + streams::starts(rest));
        actions_come_apart(frames, rest);
        assert(seq![list[0]] + rest =~= list);
    } else {
        assert(all =~= Seq::empty());
        assert(frames =~= Seq::empty());
        assert(list =~= Seq::empty());
    }
}

/// Each descriptor is pumped the right way: exactly one start per descriptor, in order, with
/// the descriptor's own direction, and with the number and the direction that the peer reads
/// in the announcement.
pub proof fn starts_are_what_is_announced(from: u32, m: MessageView, dirs: Seq<FdDir>)
    ensures
        ({
            let actions = streams::send_actions(from, m, dirs);
            let pumps = started(actions);
            let frames = frames_queued(actions);
            &&& pumps.len() == dirs.len()
            &&& forall|i: int|
                0 <= i < dirs.len() ==> (#[trigger] pumps[i]).1 == dirs[i] && pumps[i].0 == (from
                    + 2 * i) % 0x1_0000_0000
            &&& actions.len() == frames.len() + pumps.len()
            &&& dirs.len() > 0 ==> frames.len() > 0 && (
            frames.last() matches OutFrameView::Fds(buf) && frame::fds_of(buf) == pumps)
        }),
{
    let list = streams::numbered(from, dirs);
    actions_come_apart(streams::send_frames(from, m, dirs), list);
    announcement_roundtrip(list);
}

/// A message without descriptors is one frame with the bytes of the message.
pub proof fn plain_messages_are_one_frame(from: u32, m: MessageView)
    ensures
        ({
            let actions = streams::send_actions(from, m, Seq::empty());
            &&& actions.len() == 1
            &&& actions[0] == SendActionView::Queue(OutFrameView::Control(m.wire()))
        }),
{
}

/// A message with descriptors goes in front of the announcement, unless it is the message
/// that counts the descriptors, which the announcement stands for.
pub proof fn messages_go_before_their_streams(from: u32, m: MessageView, dirs: Seq<FdDir>)
    requires
        0 < dirs.len() < 0x1_0000_0000,
    ensures
        ({
            let actions = streams::send_actions(from, m, dirs);
            let counts = m == MessageView::fds(dirs.len() as u32);
            &&& !counts ==> actions.len() == 2 + dirs.len() && actions[0] == SendActionView::Queue(
                OutFrameView::Carried(m.wire()),
            ) && (actions[1] matches SendActionView::Queue(f) && f is Fds)
            &&& counts ==> actions.len() == 1 + dirs.len() && (
            actions[0] matches SendActionView::Queue(f) && f is Fds)
        }),
{
    assert(bytes::len32(dirs.len()) == dirs.len() as u32);
}

/// What the peer sends reaches the caller's descriptor: for every descriptor that this side
/// writes, once the pumps that a send starts are registered, data on the announced stream
/// goes to a pump; and the peer reads its end of exactly these streams.
pub proof fn written_descriptors_get_their_data<T>(
    table: TableView<T>,
    peer: TableView<T>,
    from: u32,
    m: MessageView,
    dirs: Seq<FdDir>,
    ends: Seq<T>,
    i: int,
    data: Seq<u8>,
)
    requires
        0 <= i < dirs.len(),
    ensures
        ({
            let actions = streams::send_actions(from, m, dirs);
            let pumps = started(actions);
            let id = pumps[i].0;
            let now = registered_all(table, pumps, ends);
            &&& dirs[i] == FdDir::Write || dirs[i] == FdDir::ReadWrite ==> streams::routed(
                now,
                OutFrameView::StreamData(id, data).raw(),
            ).1 == RouteView::<T>::Data(id, data)
            &&& streams::routed(peer, frames_queued(actions).last().raw()).1 matches RouteView::Open(
                _,
                list,
            ) && list.len() == dirs.len() && list[i].0 == id && (list[i].1.spec_reads()
                <==> dirs[i] == FdDir::Write || dirs[i] == FdDir::ReadWrite) && (
            list[i].1.spec_writes() <==> dirs[i] == FdDir::Read || dirs[i] == FdDir::ReadWrite)
        }),
{
    let list = streams::numbered(from, dirs);
    starts_are_what_is_announced(from, m, dirs);
    actions_come_apart(streams::send_frames(from, m, dirs), list);
    announcement_roundtrip(list);
    if list[i].1.spec_writes() {
        registering_reaches(table, list, ends, i);
    }
}

/// Each frame has the number of its kind, the number of its stream if it has one, and its
/// bytes as they are; on the channel the kind comes first, then four bytes of number and
/// four of length, the lowest first.
pub proof fn frames_mean(id: u32, buf: Seq<u8>, f: RawFrameView, head: Seq<u8>)
    requires
        f.payload.len() < 0x1_0000_0000,
        head.len() == 9,
    ensures
        OutFrameView::Control(buf).raw() == (RawFrameView { kind: 1, id: 0, payload: buf }),
        OutFrameView::Fds(buf).raw() == (RawFrameView { kind: 2, id: 0, payload: buf }),
        OutFrameView::StreamData(id, buf).raw() == (RawFrameView { kind: 3, id, payload: buf }),
        OutFrameView::StreamClose(id).raw() == (RawFrameView {
            kind: 4,
            id,
            payload: Seq::empty(),
        }),
        OutFrameView::Carried(buf).raw() == (RawFrameView { kind: 5, id: 0, payload: buf }),
        f.bytes().len() == 9 + f.payload.len(),
        f.bytes()[0] == f.kind,
        f.bytes()[1] + 0x100 * f.bytes()[2] + 0x1_0000 * f.bytes()[3] + 0x100_0000 * f.bytes()[4]
            == f.id,
        f.bytes()[5] + 0x100 * f.bytes()[6] + 0x1_0000 * f.bytes()[7] + 0x100_0000 * f.bytes()[8]
            == f.payload.len(),
        f.bytes().skip(9) == f.payload,
        frame::frame_header_of(head).kind == head[0],
        frame::frame_header_of(head).id == head[1] + 0x100 * head[2] + 0x1_0000 * head[3]
            + 0x100_0000 * head[4],
        frame::frame_header_of(head).len == head[5] + 0x100 * head[6] + 0x1_0000 * head[7]
            + 0x100_0000 * head[8],
{
    bytes::bytes_are_digits(f.id, 0);
    bytes::bytes_are_digits(bytes::len32(f.payload.len()), 0);
    assert(f.bytes().skip(9) =~= f.payload);
    bytes::digits_add_up(head.subrange(1, 5));
    bytes::digits_add_up(head.subrange(5, 9));
}

/// An announcement is read stream by stream: five bytes each, the number with the lowest
/// byte first and then 0, 1 or 2 for read, write or both. A stream with another last byte is
/// passed over, and so are fewer than five bytes at the end.
pub proof fn announcements_mean(id: u32, dir: FdDir, entry: Seq<u8>, rest: Seq<u8>)
    requires
        entry.len() == 5,
        entry[0] + 0x100 * entry[1] + 0x1_0000 * entry[2] + 0x100_0000 * entry[3] == id,
    ensures
        entry[4] == (match dir {
            FdDir::Read => 0u8,
            FdDir::Write => 1u8,
            FdDir::ReadWrite => 2u8,
        }) ==> frame::fds_of(entry + rest) == seq![(id, dir)] + frame::fds_of(rest)
            && frame::fds_bytes(seq![(id, dir)]) == entry,
        entry[4] > 2 ==> frame::fds_of(entry + rest) == frame::fds_of(rest),
        rest.len() < 5 ==> frame::fds_of(rest).len() == 0,
{
    let all = entry + rest;
    assert(all.skip(5) =~= rest);
    assert(all.take(4) =~= entry.take(4));
    bytes::digits_add_up(entry.take(4));
    bytes::le32_value_roundtrip(entry.take(4));
    let one = seq![(id, dir)];
    assert(one.drop_first() =~= Seq::empty());
    reveal_with_fuel(frame::fds_bytes, 2);
    if entry[4] == frame::dir_wire(dir) {
        assert(bytes::le32(id).push(entry[4]) + Seq::<u8>::empty() =~= entry);
    }
}

/// Announcements one behind the other announce the streams one behind the other.
pub proof fn announcements_add_up(a: Seq<(u32, FdDir)>, b: Seq<(u32, FdDir)>)
    ensures
        frame::fds_bytes(a + b) == frame::fds_bytes(a) + frame::fds_bytes(b),
    decreases a.len(),
{
    if a.len() == 0 {
        assert(a + b =~= b);
        assert(frame::fds_bytes(a) + frame::fds_bytes(b) =~= frame::fds_bytes(b));
    } else {
        assert((a + b).drop_first() =~= a.drop_first() + b);
        announcements_add_up(a.drop_first(), b);
        assert(frame::fds_bytes(a + b) =~= frame::fds_bytes(a) + frame::fds_bytes(b));
    }
}

/// A message is delivered at once, whatever its number.
pub proof fn messages_are_delivered<T>(table: TableView<T>, id: u32, m: MessageView)
    requires
        m.payload.len() <= MAX_PAYLOAD,
    ensures
        streams::routed(table, RawFrameView { kind: 1, id, payload: m.wire() }) == (
            table,
            RouteView::<T>::Deliver(m),
        ),
{
    message_roundtrip(m);
}

/// A message that waits is kept until streams are announced, and is delivered with them;
/// nothing of it is left behind.
pub proof fn waiting_messages_are_completed<T>(
    table: TableView<T>,
    id: u32,
    m: MessageView,
    other: u32,
    announced: Seq<u8>,
)
    requires
        m.payload.len() <= MAX_PAYLOAD,
    ensures
        ({
            let (kept, route) = streams::routed(
                table,
                RawFrameView { kind: 5, id, payload: m.wire() },
            );
            let (after, opened) = streams::routed(
                kept,
                RawFrameView { kind: 2, id: other, payload: announced },
            );
            &&& route is Hold
            &&& kept.streams == table.streams
            &&& opened matches RouteView::Open(message, ends) && message == m && ends.len()
                == frame::fds_of(announced).len()
            &&& after.streams == table.streams
            &&& after.held is None
        }),
{
    message_roundtrip(m);
}

/// Streams that are announced while no message waits come with the message that counts
/// them; each comes with its own number, and this side reads what the other one writes.
pub proof fn announced_streams_are_turned_round<T>(
    table: TableView<T>,
    id: u32,
    announced: Seq<u8>,
)
    requires
        frame::fds_of(announced).len() < 0x1_0000_0000,
    ensures
        ({
            let list = frame::fds_of(announced);
            let (after, route) = streams::routed(
                table,
                RawFrameView { kind: 2, id, payload: announced },
            );
            &&& after.streams == table.streams
            &&& after.held is None
            &&& route matches RouteView::Open(message, ends) && ends.len() == list.len() && (
            table.held is None ==> message == MessageView::fds(list.len() as u32)) && forall|i: int|
                0 <= i < list.len() ==> (#[trigger] ends[i]).0 == list[i].0 && (ends[i].1
                    == match list[i].1 {
                    FdDir::Read => FdDir::Write,
                    FdDir::Write => FdDir::Read,
                    FdDir::ReadWrite => FdDir::ReadWrite,
                })
        }),
{
}

/// Data goes to the pump of its stream and nowhere else.
pub proof fn data_goes_to_its_stream<T>(table: TableView<T>, id: u32, data: Seq<u8>)
    ensures
        table.streams.dom().contains(id) ==> streams::routed(
            table,
            RawFrameView { kind: 3, id, payload: data },
        ) == (table, RouteView::<T>::Data(id, data)),
        !table.streams.dom().contains(id) ==> streams::routed(
            table,
            RawFrameView { kind: 3, id, payload: data },
        ) == (table, RouteView::<T>::Ignore),
{
}

/// The end of a stream reaches its pump, and takes that stream away and no other.
pub proof fn the_end_of_a_stream_is_its_own<T>(
    table: TableView<T>,
    id: u32,
    other: u32,
    data: Seq<u8>,
)
    requires
        other != id,
    ensures
        ({
            let (after, route) = streams::routed(
                table,
                RawFrameView { kind: 4, id, payload: data },
            );
            &&& table.streams.dom().contains(id) ==> route == RouteView::Close(table.streams[id])
            &&& !table.streams.dom().contains(id) ==> route is Ignore && after == table
            &&& !after.streams.dom().contains(id)
            &&& after.streams.dom().contains(other) <==> table.streams.dom().contains(other)
            &&& table.streams.dom().contains(other) ==> after.streams[other]
                == table.streams[other]
            &&& after.held == table.held
        }),
{
}

/// Frames of other kinds change nothing.
pub proof fn unknown_kinds_are_passed_over<T>(
    table: TableView<T>,
    kind: u8,
    id: u32,
    data: Seq<u8>,
)
    requires
        kind == 0 || kind > 5,
    ensures
        streams::routed(table, RawFrameView { kind, id, payload: data }) == (
            table,
            RouteView::<T>::Ignore,
        ),
{
}

/// What holds no message is no message: it is passed over, and nothing is kept of it.
pub proof fn what_is_no_message_is_passed_over<T>(
    table: TableView<T>,
    kind: u8,
    id: u32,
    payload: Seq<u8>,
)
    requires
        kind == 1 || kind == 5,
        forall|m: MessageView| #[trigger] m.wire() != payload || m.payload.len() > MAX_PAYLOAD,
    ensures
        streams::routed(table, RawFrameView { kind, id, payload }) == (
            table,
            RouteView::<T>::Ignore,
        ),
{
    whole_messages_only(payload);
}

/// A stream that this side writes takes data from its registration on, into the pump that it
/// was registered with; other streams stay as they are, and a stream that this side only
/// reads takes none.
pub proof fn registration_means<T>(
    table: TableView<T>,
    id: u32,
    other: u32,
    dir: FdDir,
    end: T,
)
    requires
        other != id,
    ensures
        ({
            let now = streams::registered(table, id, dir, end);
            &&& dir == FdDir::Write || dir == FdDir::ReadWrite ==> now.streams.dom().contains(id)
                && now.streams[id] == end
            &&& dir == FdDir::Read ==> now == table
            &&& now.streams.dom().contains(other) <==> table.streams.dom().contains(other)
            &&& now.streams[other] == table.streams[other]
            &&& now.held == table.held
        }),
{
}

/// Streams that are announced are read as they were announced, one by one.
pub proof fn announced_streams_are_read(
    list: Vec<(u32, FdDir)>,
    out: Vec<u8>,
    buf: &[u8],
    read: Vec<(u32, FdDir)>,
)
    requires
        call_ensures(frame::encode_fds, (&list,), out),
        buf@ == out@,
        call_ensures(frame::decode_fds, (buf,), read),
    ensures
        read@ == list@,
{
    announcement_roundtrip(list@);
}

/// A message that came alone is received without descriptors, and one that came with streams
/// is received with their stand-ins, in order; the message itself is not changed.
pub proof fn received_messages_are_whole<F>(
    message: Message,
    fds: Vec<F>,
    alone: Received<F>,
    with_fds: Received<F>,
)
    requires
        call_ensures(streams::receive_control, (message,), alone),
        call_ensures(streams::receive_fds, (message, fds), with_fds),
    ensures
        alone.message@ == message@,
        alone.fds@.len() == 0,
        with_fds.message@ == message@,
        with_fds.fds@ == fds@,
{
    assert(alone@.fds == alone.fds@);
    assert(alone@.message == message@);
    assert(with_fds@.message == message@);
    assert(with_fds@.fds == with_fds.fds@);
}

/// A frame is what its header says, with the payload that came behind it.
pub proof fn frames_keep_their_payload(h: FrameHeader, payload: Vec<u8>, f: RawFrame)
    requires
        call_ensures(FrameHeader::with_payload, (h, payload), f),
    ensures
        f.kind == h.kind,
        f.id == h.id,
        f.payload@ == payload@,
{
    assert(f@.kind == h.kind && f@.id == h.id && f@.payload == payload@);
}

/// What is to be done to send, and where a frame goes, are shown as they are.
pub proof fn actions_are_shown<T>(
    list: Seq<SendAction>,
    i: int,
    buf: Vec<u8>,
    id: u32,
    dir: FdDir,
    m: Message,
    streams: Vec<(u32, FdDir)>,
    end: T,
    f: RawFrame,
)
    ensures
        streams::action_views(list).len() == list.len(),
        0 <= i < list.len() ==> streams::action_views(list)[i] == (match list[i] {
            SendAction::Queue(frame) => SendActionView::Queue(frame@),
            SendAction::Start(id, dir) => SendActionView::Start(id, dir),
        }),
        OutFrame::Control(buf)@ == OutFrameView::Control(buf@),
        OutFrame::Carried(buf)@ == OutFrameView::Carried(buf@),
        OutFrame::Fds(buf)@ == OutFrameView::Fds(buf@),
        OutFrame::StreamData(id, buf)@ == OutFrameView::StreamData(id, buf@),
        OutFrame::StreamClose(id)@ == OutFrameView::StreamClose(id),
        Route::<T>::Deliver(m)@ == RouteView::<T>::Deliver(m@),
        Route::<T>::Hold@ == RouteView::<T>::Hold,
        Route::<T>::Open(m, streams)@ == RouteView::<T>::Open(m@, streams@),
        Route::<T>::Data(id, buf)@ == RouteView::<T>::Data(id, buf@),
        Route::<T>::Close(end)@ == RouteView::<T>::Close(end),
        Route::<T>::Ignore@ == RouteView::<T>::Ignore,
        f@.kind == f.kind,
        f@.id == f.id,
        f@.payload == f.payload@,
{
}

/// A stream's entrance is found exactly if the stream takes data, and headers of frames take
/// nine bytes.
pub proof fn entrances_are_found<T>(table: StreamTable<T>, id: u32, end: Option<&T>)
    requires
        call_ensures(StreamTable::<T>::get, (&table, id), end),
    ensures
        end is Some <==> table@.streams.dom().contains(id),
        end matches Some(e) ==> *e == table@.streams[id],
        FrameHeader::SIZE == 9,
{
}

} // verus!
