//! Streams: how they are numbered, what is sent for a message, and where the frames that
//! arrive go.

use super::frame;
use super::frame::{
    decode_fds, encode_fds, OutFrame, OutFrameView, RawFrame, RawFrameView, KIND_CARRIED,
    KIND_CONTROL, KIND_FDS, KIND_STREAM_CLOSE, KIND_STREAM_DATA,
};
use crate::bytes;
use crate::bytes::length_field;
use crate::proto::{decode_message, Message, MessageView};
use crate::transport::{FdDir, Received, ReceivedView};
use std::collections::HashMap;
use vstd::prelude::*;

verus! {

/// Which half of a connection an endpoint is. The two halves number their streams
/// differently, so that they never pick the same number.
#[derive(Clone, Copy, Debug, PartialEq, Eq, Structural)]
pub enum Side {
    /// The side that connects. Its streams have even numbers.
    Dialer,
    /// The side that accepts. Its streams have odd numbers.
    Listener,
}

/// The number of a side's first stream.
pub open spec fn first_id(side: Side) -> u32 {
    match side {
        Side::Dialer => 0,
        Side::Listener => 1,
    }
}

/// The number that comes `n` streams after `from`. After the last number that fits into
/// 32 bits they start again.
pub open spec fn id_after(from: u32, n: nat) -> u32 {
    ((from + 2 * n) % 0x1_0000_0000) as u32
}

/// Hands out the numbers of one side's streams.
pub struct StreamIds {
    next: u32,
}

impl View for StreamIds {
    type V = u32;

    /// The number of the next stream.
    closed spec fn view(&self) -> u32 {
        self.next
    }
}

impl StreamIds {
    /// The numbers of one side, before any is handed out.
    pub fn new(side: Side) -> (ids: StreamIds)
        ensures
            ids@ == first_id(side),
    {
        match side {
            Side::Dialer => StreamIds { next: 0 },
            Side::Listener => StreamIds { next: 1 },
        }
    }

    /// Hands out the next number.
    pub fn alloc_id(&mut self) -> (id: u32)
        ensures
            id == old(self)@,
            final(self)@ == id_after(old(self)@, 1),
    {
        let id: u32 = self.next;
        self.next = self.next.wrapping_add(2);
        id
    }
}

/// The streams for descriptors with the given directions, numbered from `from` on.
pub open spec fn numbered(from: u32, dirs: Seq<FdDir>) -> Seq<(u32, FdDir)> {
    Seq::new(dirs.len(), |i: int| (id_after(from, i as nat), dirs[i]))
}

/// The frame for a message without descriptors.
pub open spec fn control_view(m: MessageView) -> OutFrameView {
    OutFrameView::Control(m.wire())
}

/// The frame that announces streams.
pub open spec fn announcement(streams: Seq<(u32, FdDir)>) -> OutFrameView {
    OutFrameView::Fds(frame::fds_bytes(streams))
}

/// The frames for a message with descriptors of the given directions, where `from` is the
/// number of the next stream. Without descriptors it is the message alone. With
/// descriptors the message goes first, and the announcement of their streams completes
/// it; a message that says no more than how many descriptors there are need not be sent.
pub open spec fn send_frames(from: u32, m: MessageView, dirs: Seq<FdDir>) -> Seq<OutFrameView> {
    if dirs.len() == 0 {
        seq![control_view(m)]
    } else if m == MessageView::fds(bytes::len32(dirs.len())) {
        seq![announcement(numbered(from, dirs))]
    } else {
        seq![OutFrameView::Carried(m.wire()), announcement(numbered(from, dirs))]
    }
}

/// The frame for a message without descriptors.
pub fn control_frame(message: &Message) -> (frame: OutFrame)
    ensures
        frame@ == control_view(message@),
{
    OutFrame::Control(message.encode())
}

/// One thing to do to send a message.
pub enum SendAction {
    /// Queue this frame.
    Queue(OutFrame),
    /// Start the pumps of the next descriptor: its stream, and what this side does with it.
    Start(u32, FdDir),
}

/// A [`SendAction`] as a mathematical value.
#[verifier::ext_equal]
pub enum SendActionView {
    Queue(OutFrameView),
    Start(u32, FdDir),
}

impl View for SendAction {
    type V = SendActionView;

    open spec fn view(&self) -> SendActionView {
        match *self {
            SendAction::Queue(f) => SendActionView::Queue(f@),
            SendAction::Start(id, dir) => SendActionView::Start(id, dir),
        }
    }
}

/// The mathematical values of a list of things to do.
pub open spec fn action_views(list: Seq<SendAction>) -> Seq<SendActionView> {
    list.map_values(|a: SendAction| a@)
}

/// Frames to queue, one after the other.
pub open spec fn queues(frames: Seq<OutFrameView>) -> Seq<SendActionView> {
    frames.map_values(|f: OutFrameView| SendActionView::Queue(f))
}

/// Descriptors whose pumps are to be started, one after the other.
pub open spec fn starts(pumps: Seq<(u32, FdDir)>) -> Seq<SendActionView> {
    pumps.map_values(|p: (u32, FdDir)| SendActionView::Start(p.0, p.1))
}

/// All that is done to send a message with descriptors of the given directions, in order.
/// A pump may produce data at once, and data that overtook the announcement would find no
/// stream, so all frames are queued before the first pump starts.
pub open spec fn send_actions(from: u32, m: MessageView, dirs: Seq<FdDir>) -> Seq<SendActionView> {
    queues(send_frames(from, m, dirs)) + starts(numbered(from, dirs))
}

/// Plans what to do, in order, to send a message with descriptors of the given directions.
pub fn plan_send(ids: &mut StreamIds, message: &Message, dirs: &Vec<FdDir>) -> (actions: Vec<
    SendAction,
>)
    ensures
        action_views(actions@) == send_actions(old(ids)@, message@, dirs@),
        final(ids)@ == id_after(old(ids)@, dirs@.len()),
{
    let ghost from = ids@;
    let ghost streams = numbered(from, dirs@);
    let mut pumps: Vec<(u32, FdDir)> = Vec::new();
    let mut i: usize = 0;
    assert(streams.take(0) =~= pumps@);
    while i < dirs.len()
        invariant
            streams == numbered(from, dirs@),
            i <= dirs@.len(),
            pumps@ == streams.take(i as int),
            ids@ == id_after(from, i as nat),
        decreases dirs@.len() - i,
    {
        let id: u32 = ids.alloc_id();
        pumps.push((id, dirs[i]));
        i = i + 1;
        assert(pumps@ =~= streams.take(i as int));
    }
    assert(pumps@ =~= streams);
    let ghost frames = queues(send_frames(from, message@, dirs@));
    let mut actions: Vec<SendAction> = Vec::new();
    if dirs.is_empty() {
        actions.push(SendAction::Queue(control_frame(message)));
    } else {
        if *message != Message::fds(length_field(dirs.len())) {
            actions.push(SendAction::Queue(OutFrame::Carried(message.encode())));
        }
        actions.push(SendAction::Queue(OutFrame::Fds(encode_fds(&pumps))));
    }
    assert(action_views(actions@) =~= frames);
    let mut k: usize = 0;
    assert(frames + starts(streams).take(0) =~= frames);
    while k < pumps.len()
        invariant
            k <= pumps@.len(),
            pumps@ == streams,
            action_views(actions@) == frames + starts(streams).take(k as int),
        decreases pumps@.len() - k,
    {
        let ghost before = actions@;
        let (id, dir) = pumps[k];
        actions.push(SendAction::Start(id, dir));
        k = k + 1;
        assert(action_views(actions@) =~= action_views(before).push(
            SendActionView::Start(id, dir),
        ));
        assert(action_views(actions@) =~= frames + starts(streams).take(k as int));
    }
    assert(starts(streams).take(k as int) =~= starts(streams));
    actions
}

/// What a receiver keeps between two frames: the streams that take data from the channel,
/// each with the entrance `T` of the pump that writes the data out, and the message that
/// waits for its descriptors.
pub struct StreamTable<T> {
    streams: HashMap<u32, T>,
    held: Option<Message>,
}

/// A [`StreamTable`] as a mathematical value.
#[verifier::ext_equal]
pub struct TableView<T> {
    pub streams: Map<u32, T>,
    pub held: Option<MessageView>,
}

impl<T> TableView<T> {
    /// No stream takes data, and no message waits.
    pub open spec fn empty() -> TableView<T> {
        TableView { streams: Map::empty(), held: None }
    }
}

impl<T> View for StreamTable<T> {
    type V = TableView<T>;

    closed spec fn view(&self) -> TableView<T> {
        TableView {
            streams: self.streams@,
            held: match self.held {
                Some(m) => Some(m@),
                None => None,
            },
        }
    }
}

/// The streams of the other side, seen from this one.
pub open spec fn opened(list: Seq<(u32, FdDir)>) -> Seq<(u32, FdDir)> {
    list.map_values(|s: (u32, FdDir)| (s.0, s.1.spec_invert()))
}

/// Where a frame goes.
pub enum Route<T> {
    /// A message for the session.
    Deliver(Message),
    /// A message that waits for its descriptors. There is nothing to do.
    Hold,
    /// Make a local stand-in for each of these streams, with what this side does with
    /// it, before the next frame is read; then hand the message and the stand-ins to the
    /// session.
    Open(Message, Vec<(u32, FdDir)>),
    /// Data for the pump of a stream.
    Data(u32, Vec<u8>),
    /// The pump of this stream has got all of its data.
    Close(T),
    /// The frame is passed over.
    Ignore,
}

/// A [`Route`] as a mathematical value.
#[verifier::ext_equal]
pub enum RouteView<T> {
    Deliver(MessageView),
    Hold,
    Open(MessageView, Seq<(u32, FdDir)>),
    Data(u32, Seq<u8>),
    Close(T),
    Ignore,
}

impl<T> View for Route<T> {
    type V = RouteView<T>;

    open spec fn view(&self) -> RouteView<T> {
        match *self {
            Route::Deliver(m) => RouteView::Deliver(m@),
            Route::Hold => RouteView::Hold,
            Route::Open(m, list) => RouteView::Open(m@, list@),
            Route::Data(id, data) => RouteView::Data(id, data@),
            Route::Close(end) => RouteView::Close(end),
            Route::Ignore => RouteView::Ignore,
        }
    }
}

/// Where a frame goes, and what the receiver keeps after it. A message to which
/// descriptors belong waits for their streams to be announced; streams that are announced
/// without one come with the message that counts them. Data for an unknown stream, what
/// holds no message, and frames of an unknown kind are passed over.
pub open spec fn routed<T>(table: TableView<T>, f: RawFrameView) -> (TableView<T>, RouteView<T>) {
    if f.kind == KIND_CONTROL {
        match MessageView::of_wire(f.payload) {
            Some(m) => (table, RouteView::Deliver(m)),
            None => (table, RouteView::Ignore),
        }
    } else if f.kind == KIND_CARRIED {
        match MessageView::of_wire(f.payload) {
            Some(m) => (TableView { held: Some(m), ..table }, RouteView::Hold),
            None => (table, RouteView::Ignore),
        }
    } else if f.kind == KIND_FDS {
        let list = opened(frame::fds_of(f.payload));
        let message = match table.held {
            Some(m) => m,
            None => MessageView::fds(bytes::len32(list.len())),
        };
        (TableView { held: None, ..table }, RouteView::Open(message, list))
    } else if f.kind == KIND_STREAM_DATA && table.streams.dom().contains(f.id) {
        (table, RouteView::Data(f.id, f.payload))
    } else if f.kind == KIND_STREAM_CLOSE && table.streams.dom().contains(f.id) {
        (
            TableView { streams: table.streams.remove(f.id), ..table },
            RouteView::Close(table.streams[f.id]),
        )
    } else {
        (table, RouteView::Ignore)
    }
}

/// What the receiver keeps after one more stream was registered: the stream takes data if
/// this side writes it.
pub open spec fn registered<T>(table: TableView<T>, id: u32, dir: FdDir, end: T) -> TableView<T> {
    if dir.spec_writes() {
        TableView { streams: table.streams.insert(id, end), ..table }
    } else {
        table
    }
}

/// The streams of the other side, seen from this one.
fn invert_all(list: &Vec<(u32, FdDir)>) -> (out: Vec<(u32, FdDir)>)
    ensures
        out@ == opened(list@),
{
    let mut out: Vec<(u32, FdDir)> = Vec::new();
    let mut i: usize = 0;
    assert(out@ =~= opened(list@).take(0));
    while i < list.len()
        invariant
            i <= list@.len(),
            out@ == opened(list@).take(i as int),
        decreases list@.len() - i,
    {
        let (id, dir) = list[i];
        out.push((id, dir.invert()));
        i = i + 1;
        assert(out@ =~= opened(list@).take(i as int));
    }
    assert(opened(list@).take(i as int) =~= opened(list@));
    out
}

impl<T> StreamTable<T> {
    /// No stream takes data, and no message waits.
    pub fn new() -> (table: StreamTable<T>)
        ensures
            table@ == TableView::<T>::empty(),
    {
        StreamTable { streams: HashMap::new(), held: None }
    }

    /// Registers a stream with what this side does with it, and the entrance of its pump.
    pub fn register(&mut self, id: u32, dir: FdDir, end: T)
        ensures
            final(self)@ == registered(old(self)@, id, dir, end),
    {
        broadcast use vstd::std_specs::hash::group_hash_axioms;

        if dir.writes() {
            self.streams.insert(id, end);
        }
    }

    /// The entrance of a stream's pump, if the stream takes data.
    pub fn get(&self, id: u32) -> (end: Option<&T>)
        ensures
            match end {
                Some(end) => self@.streams.dom().contains(id) && *end == self@.streams[id],
                None => !self@.streams.dom().contains(id),
            },
    {
        broadcast use vstd::std_specs::hash::group_hash_axioms;

        self.streams.get(&id)
    }

    /// Finds out where a frame goes. A stream that ends takes no more data.
    pub fn route(&mut self, f: RawFrame) -> (route: Route<T>)
        ensures
            (final(self)@, route@) == routed(old(self)@, f@),
    {
        broadcast use vstd::std_specs::hash::group_hash_axioms;

        match f.kind {
            KIND_CONTROL => match decode_message(f.payload.as_slice()) {
                Some(message) => Route::Deliver(message),
                None => Route::Ignore,
            },
            KIND_CARRIED => match decode_message(f.payload.as_slice()) {
                Some(message) => {
                    self.held = Some(message);
                    Route::Hold
                },
                None => Route::Ignore,
            },
            KIND_FDS => {
                let announced = decode_fds(f.payload.as_slice());
                let list = invert_all(&announced);
                let message = match self.held.take() {
                    Some(message) => message,
                    None => Message::fds(length_field(list.len())),
                };
                Route::Open(message, list)
            },
            KIND_STREAM_DATA => {
                if self.streams.contains_key(&f.id) {
                    Route::Data(f.id, f.payload)
                } else {
                    Route::Ignore
                }
            },
            KIND_STREAM_CLOSE => match self.streams.remove(&f.id) {
                Some(end) => Route::Close(end),
                None => {
                    assert(self@ =~= old(self)@);
                    Route::Ignore
                },
            },
            _ => Route::Ignore,
        }
    }
}

/// What a session receives for a message that came without descriptors.
pub fn receive_control<F>(message: Message) -> (r: Received<F>)
    ensures
        r@ == (ReceivedView { message: message@, fds: Seq::<F>::empty() }),
{
    let r = Received { message, fds: Vec::new() };
    assert(r@.fds =~= Seq::<F>::empty());
    r
}

/// What a session receives for a message that came with descriptors, given their local
/// stand-ins.
pub fn receive_fds<F>(message: Message, fds: Vec<F>) -> (r: Received<F>)
    ensures
        r@ == (ReceivedView { message: message@, fds: fds@ }),
{
    Received { message, fds }
}

} // verus!
