//! Pumps: how bytes move between descriptors and streams.
//!
//! A pump reads or writes a descriptor again and again. Each call may move fewer bytes
//! than it was asked to, or fail in a way that is no failure of the pump. What a call's
//! outcome means is decided here; the calls themselves are the caller's.

use crate::error::IoKind;
use crate::mux::laws as mux_laws;
use crate::mux::{OutFrame, OutFrameView, RawFrameView, RouteView, TableView};
use vstd::prelude::*;
use vstd::slice::*;

verus! {

/// How a read ended.
pub enum ReadOutcome {
    /// These bytes were read. None at all means that the descriptor is at its end.
    Data(Vec<u8>),
    /// The read failed.
    Failed(IoKind),
}

/// A [`ReadOutcome`] as a mathematical value.
#[verifier::ext_equal]
pub enum ReadOutcomeView {
    Data(Seq<u8>),
    Failed(IoKind),
}

impl View for ReadOutcome {
    type V = ReadOutcomeView;

    open spec fn view(&self) -> ReadOutcomeView {
        match *self {
            ReadOutcome::Data(data) => ReadOutcomeView::Data(data@),
            ReadOutcome::Failed(kind) => ReadOutcomeView::Failed(kind),
        }
    }
}

/// What a pump's descriptor is.
#[derive(Clone, Copy, Debug, PartialEq, Eq, Structural)]
pub enum End {
    /// A descriptor that the caller delegated. It may be a file or a terminal, so it is
    /// read and written by calls that wait; but the caller may have made it one that does
    /// not wait.
    Delegated,
    /// One end of a stand-in for a descriptor of the other side. It is read and written
    /// by calls that do not wait, whenever it is ready.
    StandIn,
}

/// What a pump that reads does after a read.
pub enum ReaderStep {
    /// Send the frame, then read on.
    Send(OutFrame),
    /// Send the frame. It is the last one.
    Last(OutFrame),
    /// Read again.
    Again,
    /// Wait until the descriptor has bytes, then read again.
    Wait,
    /// Stop without another word.
    Stop,
}

/// A [`ReaderStep`] as a mathematical value.
#[verifier::ext_equal]
pub enum ReaderStepView {
    Send(OutFrameView),
    Last(OutFrameView),
    Again,
    Wait,
    Stop,
}

impl View for ReaderStep {
    type V = ReaderStepView;

    open spec fn view(&self) -> ReaderStepView {
        match *self {
            ReaderStep::Send(f) => ReaderStepView::Send(f@),
            ReaderStep::Last(f) => ReaderStepView::Last(f@),
            ReaderStep::Again => ReaderStepView::Again,
            ReaderStep::Wait => ReaderStepView::Wait,
            ReaderStep::Stop => ReaderStepView::Stop,
        }
    }
}

/// What a pump that reads the descriptor of a stream does after a read. The end of the
/// descriptor ends the stream; a descriptor that has no bytes yet is waited for. A delegated
/// descriptor that cannot be read ends the stream too; a stand-in that cannot be read just
/// stops.
pub open spec fn reader_step(end: End, id: u32, outcome: ReadOutcomeView) -> ReaderStepView {
    match outcome {
        ReadOutcomeView::Data(data) => if data.len() == 0 {
            ReaderStepView::Last(OutFrameView::StreamClose(id))
        } else {
            ReaderStepView::Send(OutFrameView::StreamData(id, data))
        },
        ReadOutcomeView::Failed(kind) => match end {
            End::Delegated => if kind == IoKind::Interrupted {
                ReaderStepView::Again
            } else if kind == IoKind::WouldBlock {
                ReaderStepView::Wait
            } else {
                ReaderStepView::Last(OutFrameView::StreamClose(id))
            },
            End::StandIn => if kind == IoKind::WouldBlock {
                ReaderStepView::Wait
            } else {
                ReaderStepView::Stop
            },
        },
    }
}

/// What a pump that reads the descriptor of a stream does after a read.
pub fn after_read(end: End, id: u32, outcome: ReadOutcome) -> (step: ReaderStep)
    ensures
        step@ == reader_step(end, id, outcome@),
{
    match outcome {
        ReadOutcome::Data(data) => {
            if data.is_empty() {
                ReaderStep::Last(OutFrame::StreamClose(id))
            } else {
                ReaderStep::Send(OutFrame::StreamData(id, data))
            }
        },
        ReadOutcome::Failed(kind) => match end {
            End::Delegated => {
                if kind == IoKind::Interrupted {
                    ReaderStep::Again
                } else if kind == IoKind::WouldBlock {
                    ReaderStep::Wait
                } else {
                    ReaderStep::Last(OutFrame::StreamClose(id))
                }
            },
            End::StandIn => {
                if kind == IoKind::WouldBlock {
                    ReaderStep::Wait
                } else {
                    ReaderStep::Stop
                }
            },
        },
    }
}

/// How a write ended.
#[derive(Clone, Copy, Debug, PartialEq, Eq, Structural)]
pub enum WriteOutcome {
    /// This many bytes were written.
    Wrote(usize),
    /// The write failed.
    Failed(IoKind),
}

/// What bytes are written to.
#[derive(Clone, Copy, Debug, PartialEq, Eq, Structural)]
pub enum Sink {
    /// A descriptor that the caller delegated. It may be one that does not wait, because
    /// the caller drives it that way.
    Delegated,
    /// A stand-in, written to whenever it is ready.
    StandIn,
    /// A descriptor of the program's own that waits: the terminal of a session, or a
    /// connection.
    Plain,
}

/// What to do after a write.
#[derive(Clone, Copy, Debug, PartialEq, Eq, Structural)]
pub enum WriteStep {
    /// All bytes are written.
    Done,
    /// Write the rest.
    Again,
    /// Wait until the descriptor takes bytes, then write the rest.
    Wait,
    /// The rest cannot be written.
    Failed(IoKind),
}

/// What a write leads to, given the bytes that were not written before it: how many
/// bytes it took, and what to do. A descriptor that is full is waited for, except where
/// it waits by itself.
pub open spec fn write_step(sink: Sink, left: nat, outcome: WriteOutcome) -> (nat, WriteStep) {
    match outcome {
        WriteOutcome::Wrote(n) => if n == 0 && sink == Sink::Delegated {
            (0, WriteStep::Failed(IoKind::Other))
        } else if n == 0 && sink == Sink::Plain {
            (0, WriteStep::Failed(IoKind::WriteZero))
        } else if n == left {
            (n as nat, WriteStep::Done)
        } else {
            (n as nat, WriteStep::Again)
        },
        WriteOutcome::Failed(kind) => if kind == IoKind::Interrupted && sink != Sink::StandIn {
            (0, WriteStep::Again)
        } else if kind == IoKind::WouldBlock && sink != Sink::Plain {
            (0, WriteStep::Wait)
        } else {
            (0, WriteStep::Failed(kind))
        },
    }
}

/// Bytes that are being written.
pub struct WriteCursor {
    data: Vec<u8>,
    offset: usize,
}

impl WriteCursor {
    /// All bytes, written or not.
    pub closed spec fn data(self) -> Seq<u8> {
        self.data@
    }

    /// How many bytes are written.
    pub closed spec fn offset(self) -> nat {
        self.offset as nat
    }

    #[verifier::type_invariant]
    spec fn within_data(self) -> bool {
        self.offset <= self.data@.len()
    }

    /// Bytes of which none is written.
    pub fn new(data: Vec<u8>) -> (c: WriteCursor)
        ensures
            c.data() == data@,
            c.offset() == 0,
    {
        WriteCursor { data, offset: 0 }
    }

    /// Whether all bytes are written.
    pub fn is_done(&self) -> (b: bool)
        ensures
            b == (self.offset() == self.data().len()),
    {
        self.offset == self.data.len()
    }

    /// The bytes that are not written.
    pub fn rest(&self) -> (rest: &[u8])
        ensures
            rest@ == self.data().skip(self.offset() as int),
            self.offset() <= self.data().len(),
    {
        proof {
            use_type_invariant(self);
        }
        let rest = slice_subrange(self.data.as_slice(), self.offset, self.data.len());
        assert(rest@ =~= self.data().skip(self.offset() as int));
        rest
    }

    /// Takes the outcome of a write of the bytes that were not written.
    pub fn advance(&mut self, sink: Sink, outcome: WriteOutcome) -> (step: WriteStep)
        requires
            outcome matches WriteOutcome::Wrote(n) ==> n <= old(self).data().len() - old(
                self,
            ).offset(),
        ensures
            final(self).data() == old(self).data(),
            old(self).offset() <= old(self).data().len(),
            (final(self).offset() - old(self).offset(), step) == ({
                let (n, step) = write_step(
                    sink,
                    (old(self).data().len() - old(self).offset()) as nat,
                    outcome,
                );
                (n as int, step)
            }),
    {
        proof {
            use_type_invariant(&*self);
        }
        let len: usize = self.data.len();
        match outcome {
            WriteOutcome::Wrote(n) => {
                if n == 0 && sink == Sink::Delegated {
                    return WriteStep::Failed(IoKind::Other);
                }
                if n == 0 && sink == Sink::Plain {
                    return WriteStep::Failed(IoKind::WriteZero);
                }
                let offset: usize = self.offset + n;
                self.offset = offset;
                if offset == len {
                    WriteStep::Done
                } else {
                    WriteStep::Again
                }
            },
            WriteOutcome::Failed(kind) => {
                if kind == IoKind::Interrupted && sink != Sink::StandIn {
                    WriteStep::Again
                } else if kind == IoKind::WouldBlock && sink != Sink::Plain {
                    WriteStep::Wait
                } else {
                    WriteStep::Failed(kind)
                }
            },
        }
    }
}

/// What the pump of a stream is given.
pub enum StreamMsg {
    /// Bytes to write.
    Data(Vec<u8>),
    /// There are no more bytes.
    Close,
}

/// What a pump that writes does with what it was given.
pub enum WriterAction {
    /// Write the bytes, all of them or until that fails.
    Write(WriteCursor),
    /// Stop. A stand-in is shut down for writing, so that whoever reads its other end
    /// comes to the end.
    Stop {
        /// Whether to shut the descriptor down.
        shut_down: bool,
    },
}

/// What a pump that writes does with what it was given.
pub fn after_message(end: End, msg: StreamMsg) -> (action: WriterAction)
    ensures
        match msg {
            StreamMsg::Data(data) => action matches WriterAction::Write(c) && c.data() == data@
                && c.offset() == 0,
            StreamMsg::Close => action == (WriterAction::Stop { shut_down: end == End::StandIn }),
        },
{
    match msg {
        StreamMsg::Data(data) => WriterAction::Write(WriteCursor::new(data)),
        StreamMsg::Close => WriterAction::Stop { shut_down: end == End::StandIn },
    }
}

/// Which way a relay of an interactive session goes.
#[derive(Clone, Copy, Debug, PartialEq, Eq, Structural)]
pub enum Relay {
    /// From the client's descriptor to the terminal.
    ToTerminal,
    /// From the terminal to the client's descriptor.
    ToClient,
}

impl Relay {
    /// Whether the relay stops when it is cancelled. The client's input may never end, so
    /// the relay of it is cancelled; the other one carries output until there is no more.
    pub open spec fn spec_cancellable(self) -> bool {
        self == Relay::ToTerminal
    }

    /// What the relay writes to.
    pub open spec fn spec_sink(self) -> Sink {
        match self {
            Relay::ToTerminal => Sink::Plain,
            Relay::ToClient => Sink::Delegated,
        }
    }

    /// Whether the relay stops when it is cancelled.
    pub fn cancellable(self) -> (b: bool)
        ensures
            b == self.spec_cancellable(),
    {
        self == Relay::ToTerminal
    }

    /// What the relay writes to.
    pub fn sink(self) -> (sink: Sink)
        ensures
            sink == self.spec_sink(),
    {
        match self {
            Relay::ToTerminal => Sink::Plain,
            Relay::ToClient => Sink::Delegated,
        }
    }
}

/// How a wait for the input of a relay ended.
#[derive(Clone, Copy, Debug, PartialEq, Eq, Structural)]
pub enum PollOutcome {
    /// Something happened.
    Ready {
        /// Whether the source can be read, was hung up or failed.
        source: bool,
        /// Whether the relay was cancelled.
        cancelled: bool,
    },
    /// The wait failed.
    Failed(IoKind),
}

/// What a relay between a terminal and a descriptor does next.
#[derive(Clone, Copy, Debug, PartialEq, Eq, Structural)]
pub enum RelayStep {
    /// Wait for the source.
    Poll,
    /// Read the source.
    Read,
    /// Stop.
    Stop,
}

/// What a relay does after a wait. Cancelling counts only for a relay that can be
/// cancelled, and counts more than input.
pub open spec fn relay_step(relay: Relay, outcome: PollOutcome) -> RelayStep {
    match outcome {
        PollOutcome::Ready { source, cancelled } => if relay.spec_cancellable()
            && cancelled {
            RelayStep::Stop
        } else if source {
            RelayStep::Read
        } else {
            RelayStep::Poll
        },
        PollOutcome::Failed(kind) => if kind == IoKind::Interrupted {
            RelayStep::Poll
        } else {
            RelayStep::Stop
        },
    }
}

/// What a relay does after a wait.
pub fn after_poll(relay: Relay, outcome: PollOutcome) -> (step: RelayStep)
    ensures
        step == relay_step(relay, outcome),
{
    match outcome {
        PollOutcome::Ready { source, cancelled } => {
            if relay.cancellable() && cancelled {
                RelayStep::Stop
            } else if source {
                RelayStep::Read
            } else {
                RelayStep::Poll
            }
        },
        PollOutcome::Failed(kind) => {
            if kind == IoKind::Interrupted {
                RelayStep::Poll
            } else {
                RelayStep::Stop
            }
        },
    }
}

/// The bytes that a relay writes after a read. It stops at the end of the source and at any
/// failure. A terminal whose other side is closed fails.
pub open spec fn relay_piece(outcome: ReadOutcomeView) -> Option<Seq<u8>> {
    match outcome {
        ReadOutcomeView::Data(data) => if data.len() > 0 {
            Some(data)
        } else {
            None
        },
        ReadOutcomeView::Failed(_) => None,
    }
}

/// What a relay does with what it read: it writes the bytes, or stops.
pub fn relay_data(outcome: ReadOutcome) -> (c: Option<WriteCursor>)
    ensures
        match c {
            Some(c) => relay_piece(outcome@) == Some(c.data()) && c.offset() == 0,
            None => relay_piece(outcome@) is None,
        },
        c is None <==> (outcome@ matches ReadOutcomeView::Data(data) ==> data.len() == 0),
        c matches Some(cursor) ==> outcome@ == ReadOutcomeView::Data(cursor.data()),
{
    match outcome {
        ReadOutcome::Data(data) => {
            if data.is_empty() {
                None
            } else {
                Some(WriteCursor::new(data))
            }
        },
        ReadOutcome::Failed(_) => None,
    }
}

/// The bytes that a sink took in a series of writes, each of the bytes that were not
/// written before it, up to the first that settled the matter; and how the last one left
/// things.
pub open spec fn taken(sink: Sink, data: Seq<u8>, outcomes: Seq<WriteOutcome>) -> (
    Seq<u8>,
    WriteStep,
)
    decreases outcomes.len(),
{
    if outcomes.len() == 0 {
        (Seq::empty(), WriteStep::Again)
    } else {
        let (n, step) = write_step(sink, data.len(), outcomes[0]);
        if step is Done || step is Failed {
            (data.take(n as int), step)
        } else {
            let (rest, last) = taken(sink, data.skip(n as int), outcomes.drop_first());
            (data.take(n as int) + rest, last)
        }
    }
}

/// Whether no write took more than it was given.
pub open spec fn honest(sink: Sink, left: nat, outcomes: Seq<WriteOutcome>) -> bool
    decreases outcomes.len(),
{
    if outcomes.len() == 0 {
        true
    } else {
        let (n, step) = write_step(sink, left, outcomes[0]);
        &&& n <= left
        &&& step is Done || step is Failed || honest(
            sink,
            (left - n) as nat,
            outcomes.drop_first(),
        )
    }
}

/// A sink takes every byte once and in order: however the writes go, short, interrupted
/// or refused for want of room, what it took is the start of the data, and all of it
/// where the writes came to an end.
pub proof fn writes_are_in_order(sink: Sink, data: Seq<u8>, outcomes: Seq<WriteOutcome>)
    requires
        honest(sink, data.len(), outcomes),
    ensures
        taken(sink, data, outcomes).0 == data.take(taken(sink, data, outcomes).0.len() as int),
        taken(sink, data, outcomes).0.len() <= data.len(),
        taken(sink, data, outcomes).1 is Done ==> taken(sink, data, outcomes).0 == data,
    decreases outcomes.len(),
{
    if outcomes.len() > 0 {
        let (n, step) = write_step(sink, data.len(), outcomes[0]);
        let n = n as int;
        if step is Done {
            assert(data.take(n) =~= data);
            assert(data.take(data.len() as int) =~= data);
        } else if step is Failed {
        } else {
            let rest = data.skip(n);
            writes_are_in_order(sink, rest, outcomes.drop_first());
            let (more, last) = taken(sink, rest, outcomes.drop_first());
            let all = data.take(n) + more;
            assert(all =~= data.take(all.len() as int)) by {
                assert forall|i: int| 0 <= i < all.len() implies all[i] == data[i] by {
                    if i >= n {
                        assert(all[i] == more[i - n]);
                        assert(more[i - n] == rest.take(more.len() as int)[i - n]);
                    }
                }
            }
            if last is Done {
                assert(all =~= data);
            }
        }
    } else {
        assert(data.take(0) =~= Seq::empty());
    }
}

/// A descriptor that does not wait by itself is waited for, never given up: one that has
/// no room for bytes keeps the write going, and one that has no bytes yet keeps the stream
/// going.
pub proof fn descriptors_are_waited_for(left: nat, id: u32)
    ensures
        reader_step(End::Delegated, id, ReadOutcomeView::Failed(IoKind::WouldBlock))
            == ReaderStepView::Wait,
        reader_step(End::StandIn, id, ReadOutcomeView::Failed(IoKind::WouldBlock))
            == ReaderStepView::Wait,
        write_step(Sink::Delegated, left, WriteOutcome::Failed(IoKind::WouldBlock)) == (
            0nat,
            WriteStep::Wait,
        ),
        write_step(Sink::StandIn, left, WriteOutcome::Failed(IoKind::WouldBlock)) == (
            0nat,
            WriteStep::Wait,
        ),
{
}

/// The program's last output is not cut off: a relay to the client is never cancelled, and
/// waits for a descriptor that has no room.
pub proof fn output_is_not_cut_off(source: bool, cancelled: bool, left: nat)
    ensures
        relay_step(Relay::ToClient, PollOutcome::Ready { source, cancelled }) != RelayStep::Stop,
        write_step(
            Relay::ToClient.spec_sink(),
            left,
            WriteOutcome::Failed(IoKind::WouldBlock),
        ).1 == WriteStep::Wait,
{
}

/// The frames that a pump sends for a series of reads, up to the one after which it stops.
pub open spec fn pumped(end: End, id: u32, reads: Seq<ReadOutcomeView>) -> Seq<RawFrameView>
    decreases reads.len(),
{
    if reads.len() == 0 {
        Seq::empty()
    } else {
        match reader_step(end, id, reads[0]) {
            ReaderStepView::Send(f) => seq![f.raw()] + pumped(end, id, reads.drop_first()),
            ReaderStepView::Last(f) => seq![f.raw()],
            ReaderStepView::Again | ReaderStepView::Wait => pumped(end, id, reads.drop_first()),
            ReaderStepView::Stop => Seq::empty(),
        }
    }
}

/// The bytes that came out of a descriptor in a series of reads that got to its end.
pub open spec fn bytes_read(reads: Seq<ReadOutcomeView>) -> Seq<u8>
    decreases reads.len(),
{
    if reads.len() == 0 {
        Seq::empty()
    } else {
        let rest = bytes_read(reads.drop_first());
        match reads[0] {
            ReadOutcomeView::Data(data) => data + rest,
            ReadOutcomeView::Failed(_) => rest,
        }
    }
}

/// Whether reads go on after this one: it brought bytes, or has to be tried again.
pub open spec fn goes_on(end: End, outcome: ReadOutcomeView) -> bool {
    match outcome {
        ReadOutcomeView::Data(data) => data.len() > 0,
        ReadOutcomeView::Failed(kind) => kind == IoKind::WouldBlock || kind == IoKind::Interrupted
            && end == End::Delegated,
    }
}

/// One more frame in front adds its bytes in front.
proof fn stream_bytes_front(f: RawFrameView, frames: Seq<RawFrameView>, id: u32)
    ensures
        mux_laws::stream_bytes(seq![f] + frames, id) == mux_laws::stream_bytes(seq![f], id)
            + mux_laws::stream_bytes(frames, id),
    decreases frames.len(),
{
    let all = seq![f] + frames;
    if frames.len() == 0 {
        assert(all =~= seq![f]);
        assert(mux_laws::stream_bytes(seq![f], id) + Seq::<u8>::empty()
            =~= mux_laws::stream_bytes(seq![f], id));
    } else {
        assert(all.drop_last() =~= seq![f] + frames.drop_last());
        assert(all.last() == frames.last());
        stream_bytes_front(f, frames.drop_last(), id);
        assert(mux_laws::stream_bytes(all, id) =~= mux_laws::stream_bytes(seq![f], id)
            + mux_laws::stream_bytes(frames, id));
    }
}

/// The bytes of a stream in a single frame.
proof fn stream_bytes_single(f: RawFrameView, id: u32)
    ensures
        mux_laws::stream_bytes(seq![f], id) == if f.kind == crate::mux::frame::KIND_STREAM_DATA
            && f.id == id {
            f.payload
        } else {
            Seq::empty()
        },
{
    reveal_with_fuel(mux_laws::stream_bytes, 2);
    assert(seq![f].drop_last() =~= Seq::empty());
    assert(Seq::<u8>::empty() + f.payload =~= f.payload);
}

/// What comes out of a descriptor goes into its stream: for reads that bring bytes or
/// have to be tried again, and then come to the end, a pump sends frames that hold the
/// bytes in order, and ends the stream behind them.
pub proof fn pump_sends_all(end: End, id: u32, reads: Seq<ReadOutcomeView>)
    requires
        forall|i: int| 0 <= i < reads.len() ==> goes_on(end, #[trigger] reads[i]),
    ensures
        ({
            let frames = pumped(end, id, reads.push(ReadOutcomeView::Data(Seq::empty())));
            &&& frames.len() > 0
            &&& frames.last() == OutFrameView::StreamClose(id).raw()
            &&& mux_laws::stream_bytes(frames, id) == bytes_read(reads)
            &&& forall|i: int| 0 <= i < frames.len() - 1 ==> !mux_laws::closes(
                #[trigger] frames[i],
                id,
            )
        }),
    decreases reads.len(),
{
    let eof = ReadOutcomeView::Data(Seq::empty());
    let all = reads.push(eof);
    let frames = pumped(end, id, all);
    if reads.len() == 0 {
        stream_bytes_single(OutFrameView::StreamClose(id).raw(), id);
        assert(frames =~= seq![OutFrameView::StreamClose(id).raw()]);
    } else {
        let rest = reads.drop_first();
        assert(goes_on(end, reads[0]));
        assert forall|i: int| 0 <= i < rest.len() implies goes_on(end, #[trigger] rest[i]) by {
            assert(rest[i] == reads[i + 1]);
        }
        pump_sends_all(end, id, rest);
        assert(all.drop_first() =~= rest.push(eof));
        let later = pumped(end, id, rest.push(eof));
        match reads[0] {
            ReadOutcomeView::Data(data) => {
                let f = OutFrameView::StreamData(id, data).raw();
                assert(frames == seq![f] + later);
                stream_bytes_front(f, later, id);
                stream_bytes_single(f, id);
                assert(frames.last() == later.last());
                assert forall|i: int| 0 <= i < frames.len() - 1 implies !mux_laws::closes(
                    #[trigger] frames[i],
                    id,
                ) by {
                    if i > 0 {
                        assert(frames[i] == later[i - 1]);
                    }
                }
            },
            ReadOutcomeView::Failed(kind) => {
                assert(frames == later);
            },
        }
    }
}

/// The whole way of a stream: what comes out of a descriptor on one side is what the pump
/// on the other side is given, byte for byte, and the stream is gone afterwards.
pub proof fn stream_carries_all<T>(
    table: TableView<T>,
    end: End,
    id: u32,
    reads: Seq<ReadOutcomeView>,
)
    requires
        table.streams.dom().contains(id),
        forall|i: int| 0 <= i < reads.len() ==> goes_on(end, #[trigger] reads[i]),
    ensures
        ({
            let frames = pumped(end, id, reads.push(ReadOutcomeView::Data(Seq::empty())));
            let (left, routes) = mux_laws::routed_all(table, frames);
            mux_laws::fed(routes, id) == bytes_read(reads) && !left.streams.dom().contains(id)
        }),
{
    let frames = pumped(end, id, reads.push(ReadOutcomeView::Data(Seq::empty())));
    let before = frames.drop_last();
    pump_sends_all(end, id, reads);
    assert forall|i: int| 0 <= i < before.len() implies !mux_laws::closes(
        #[trigger] before[i],
        id,
    ) by {
        assert(before[i] == frames[i]);
    }
    mux_laws::open_stream_is_faithful(table, before, id);
    let (open, routes) = mux_laws::routed_all(table, before);
    let (left, route) = crate::mux::streams::routed(open, frames.last());
    assert(routes.push(route).drop_last() =~= routes);
}

/// Pieces one behind the other.
pub open spec fn joined(pieces: Seq<Seq<u8>>) -> Seq<u8>
    decreases pieces.len(),
{
    if pieces.len() == 0 {
        Seq::empty()
    } else {
        pieces[0] + joined(pieces.drop_first())
    }
}

/// The bytes of one piece that a sink took, and how that left things. Nothing has to be
/// written for a piece without bytes.
pub open spec fn piece_taken(sink: Sink, data: Seq<u8>, outcomes: Seq<WriteOutcome>) -> (
    Seq<u8>,
    WriteStep,
) {
    if data.len() == 0 {
        (Seq::empty(), WriteStep::Done)
    } else {
        taken(sink, data, outcomes)
    }
}

/// The bytes that a sink took where pieces are written one after the other, the writes of
/// piece `i` with `outcomes[i]`. A piece is begun only when the one before it is done.
pub open spec fn all_taken(
    sink: Sink,
    pieces: Seq<Seq<u8>>,
    outcomes: Seq<Seq<WriteOutcome>>,
) -> (Seq<u8>, WriteStep)
    decreases pieces.len(),
{
    if pieces.len() == 0 {
        (Seq::empty(), WriteStep::Done)
    } else {
        let (first, step) = piece_taken(sink, pieces[0], outcomes[0]);
        if step is Done {
            let (rest, last) = all_taken(sink, pieces.drop_first(), outcomes.drop_first());
            (first + rest, last)
        } else {
            (first, step)
        }
    }
}

/// Whether there are outcomes for every piece, and no write took more than it was given.
pub open spec fn all_honest(
    sink: Sink,
    pieces: Seq<Seq<u8>>,
    outcomes: Seq<Seq<WriteOutcome>>,
) -> bool {
    outcomes.len() == pieces.len() && forall|i: int|
        0 <= i < pieces.len() ==> honest(sink, (#[trigger] pieces[i]).len(), outcomes[i])
}

/// A sink takes the bytes of all pieces once and in order: however the writes go, what it
/// took is the start of the pieces one behind the other, and it is all of them where the
/// last piece came to its end.
pub proof fn pieces_are_in_order(
    sink: Sink,
    pieces: Seq<Seq<u8>>,
    outcomes: Seq<Seq<WriteOutcome>>,
)
    requires
        all_honest(sink, pieces, outcomes),
    ensures
        all_taken(sink, pieces, outcomes).0.is_prefix_of(joined(pieces)),
        all_taken(sink, pieces, outcomes).1 is Done ==> all_taken(sink, pieces, outcomes).0
            == joined(pieces),
    decreases pieces.len(),
{
    if pieces.len() > 0 {
        let data = pieces[0];
        let rest = pieces.drop_first();
        let later = outcomes.drop_first();
        assert(honest(sink, pieces[0].len(), outcomes[0]));
        writes_are_in_order(sink, data, outcomes[0]);
        let (first, step) = piece_taken(sink, data, outcomes[0]);
        assert(first =~= data.take(first.len() as int));
        if step is Done {
            assert(first =~= data);
            assert forall|i: int| 0 <= i < rest.len() implies honest(
                sink,
                (#[trigger] rest[i]).len(),
                later[i],
            ) by {
                assert(rest[i] == pieces[i + 1]);
            }
            pieces_are_in_order(sink, rest, later);
            let (more, last) = all_taken(sink, rest, later);
            assert((first + more).is_prefix_of(data + joined(rest))) by {
                assert((data + joined(rest)).subrange(0, (first + more).len() as int) =~= first
                    + joined(rest).subrange(0, more.len() as int));
            }
        } else {
            assert(joined(pieces).subrange(0, first.len() as int) =~= data.take(
                first.len() as int,
            ));
        }
    }
}

/// One more piece behind the others.
proof fn joined_push(pieces: Seq<Seq<u8>>, data: Seq<u8>)
    ensures
        joined(pieces.push(data)) == joined(pieces) + data,
    decreases pieces.len(),
{
    let all = pieces.push(data);
    if pieces.len() == 0 {
        assert(all.drop_first() =~= Seq::empty());
        assert(joined(all.drop_first()) =~= Seq::empty());
        assert(joined(all) =~= data);
        assert(joined(pieces) + data =~= data);
    } else {
        assert(all.drop_first() =~= pieces.drop_first().push(data));
        joined_push(pieces.drop_first(), data);
        assert(joined(all) =~= joined(pieces) + data);
    }
}

/// The pieces that the pump of a stream was given.
pub open spec fn given<T>(routes: Seq<RouteView<T>>, id: u32) -> Seq<Seq<u8>>
    decreases routes.len(),
{
    if routes.len() == 0 {
        Seq::empty()
    } else {
        let before = given(routes.drop_last(), id);
        match routes.last() {
            RouteView::Data(to, data) => if to == id {
                before.push(data)
            } else {
                before
            },
            _ => before,
        }
    }
}

/// The pieces that a pump was given are the bytes that it was fed.
proof fn given_is_fed<T>(routes: Seq<RouteView<T>>, id: u32)
    ensures
        joined(given(routes, id)) == mux_laws::fed(routes, id),
    decreases routes.len(),
{
    if routes.len() > 0 {
        let before = routes.drop_last();
        given_is_fed(before, id);
        match routes.last() {
            RouteView::Data(to, data) => {
                if to == id {
                    joined_push(given(before, id), data);
                }
            },
            _ => {},
        }
    }
}

/// From descriptor to descriptor: what comes out of a descriptor on one side goes into the
/// descriptor on the other side, byte for byte and in order, as far as that takes bytes; and
/// all of it does, where the writes come to their end.
pub proof fn descriptor_to_descriptor<T>(
    table: TableView<T>,
    end: End,
    id: u32,
    reads: Seq<ReadOutcomeView>,
    sink: Sink,
    outcomes: Seq<Seq<WriteOutcome>>,
)
    requires
        table.streams.dom().contains(id),
        forall|i: int| 0 <= i < reads.len() ==> goes_on(end, #[trigger] reads[i]),
        ({
            let frames = pumped(end, id, reads.push(ReadOutcomeView::Data(Seq::empty())));
            all_honest(sink, given(mux_laws::routed_all(table, frames).1, id), outcomes)
        }),
    ensures
        ({
            let frames = pumped(end, id, reads.push(ReadOutcomeView::Data(Seq::empty())));
            let pieces = given(mux_laws::routed_all(table, frames).1, id);
            let (written, step) = all_taken(sink, pieces, outcomes);
            &&& written.is_prefix_of(bytes_read(reads))
            &&& step is Done ==> written == bytes_read(reads)
        }),
{
    let frames = pumped(end, id, reads.push(ReadOutcomeView::Data(Seq::empty())));
    let routes = mux_laws::routed_all(table, frames).1;
    stream_carries_all(table, end, id, reads);
    given_is_fed(routes, id);
    pieces_are_in_order(sink, given(routes, id), outcomes);
}

/// The pieces that a relay writes for a series of reads, up to the one at which it stops.
pub open spec fn relayed(reads: Seq<ReadOutcomeView>) -> Seq<Seq<u8>>
    decreases reads.len(),
{
    if reads.len() == 0 {
        Seq::empty()
    } else {
        match relay_piece(reads[0]) {
            Some(data) => seq![data] + relayed(reads.drop_first()),
            None => Seq::empty(),
        }
    }
}

/// Whether a read brings bytes: it did not fail, and did not find the end.
pub open spec fn brings_bytes(outcome: ReadOutcomeView) -> bool {
    outcome matches ReadOutcomeView::Data(data) && data.len() > 0
}

/// The pieces of a relay, one behind the other, are the bytes that it read.
proof fn relayed_is_read(reads: Seq<ReadOutcomeView>, last: ReadOutcomeView)
    requires
        forall|i: int| 0 <= i < reads.len() ==> brings_bytes(#[trigger] reads[i]),
        !brings_bytes(last),
    ensures
        joined(relayed(reads.push(last))) == bytes_read(reads),
    decreases reads.len(),
{
    let all = reads.push(last);
    if reads.len() == 0 {
        assert(relayed(all) =~= Seq::empty());
    } else {
        let rest = reads.drop_first();
        assert(brings_bytes(reads[0]));
        assert forall|i: int| 0 <= i < rest.len() implies brings_bytes(
            #[trigger] rest[i],
        ) by {
            assert(rest[i] == reads[i + 1]);
        }
        relayed_is_read(rest, last);
        assert(all.drop_first() =~= rest.push(last));
        assert(all[0] == reads[0]);
        assert(relayed(all).drop_first() =~= relayed(rest.push(last)));
    }
}

/// A relay carries what it reads, byte for byte and in order, as far as the other side
/// takes bytes; and all of it, where the writes come to their end. What ends the reads, be
/// it the end of the source or a failure, adds nothing.
pub proof fn relay_is_faithful(
    relay: Relay,
    reads: Seq<ReadOutcomeView>,
    last: ReadOutcomeView,
    outcomes: Seq<Seq<WriteOutcome>>,
)
    requires
        forall|i: int| 0 <= i < reads.len() ==> brings_bytes(#[trigger] reads[i]),
        !brings_bytes(last),
        all_honest(relay.spec_sink(), relayed(reads.push(last)), outcomes),
    ensures
        ({
            let (written, step) = all_taken(
                relay.spec_sink(),
                relayed(reads.push(last)),
                outcomes,
            );
            &&& written.is_prefix_of(bytes_read(reads))
            &&& step is Done ==> written == bytes_read(reads)
        }),
{
    relayed_is_read(reads, last);
    pieces_are_in_order(relay.spec_sink(), relayed(reads.push(last)), outcomes);
}

/// A relay passes on every read that brings bytes, exactly as it came, and stops after a read
/// only if it failed or brought none.
pub proof fn relay_stops_only_at_the_end(data: Seq<u8>, kind: IoKind)
    ensures
        data.len() > 0 ==> relay_piece(ReadOutcomeView::Data(data)) == Some(data),
        relay_piece(ReadOutcomeView::Data(Seq::empty())) is None,
        relay_piece(ReadOutcomeView::Failed(kind)) is None,
{
}

/// Every piece that a relay writes is one read, in order, and no read is left out.
pub proof fn relay_writes_read_by_read(reads: Seq<ReadOutcomeView>, last: ReadOutcomeView, i: int)
    requires
        forall|k: int| 0 <= k < reads.len() ==> brings_bytes(#[trigger] reads[k]),
        last is Failed || last == ReadOutcomeView::Data(Seq::empty()),
        0 <= i < reads.len(),
    ensures
        relayed(reads.push(last)).len() == reads.len(),
        reads[i] == ReadOutcomeView::Data(relayed(reads.push(last))[i]),
    decreases reads.len(),
{
    let all = reads.push(last);
    let rest = reads.drop_first();
    assert(all[0] == reads[0]);
    assert(all.drop_first() =~= rest.push(last));
    assert(brings_bytes(reads[0]));
    assert forall|k: int| 0 <= k < rest.len() implies brings_bytes(#[trigger] rest[k]) by {
        assert(rest[k] == reads[k + 1]);
    }
    if rest.len() == 0 {
        assert(relayed(rest.push(last)) =~= Seq::empty());
    } else {
        relay_writes_read_by_read(rest, last, if i > 0 {
            i - 1
        } else {
            0
        });
    }
}

/// What comes of a read, for every way that it can end. Bytes are sent as they are on the
/// stream, and the end of the descriptor ends the stream. A read that would block is tried
/// again when there is something to read. A delegated descriptor that fails ends its stream
/// too, but for an interrupted read, which is repeated; a stand-in that fails just stops.
pub proof fn reads_mean(id: u32, data: Seq<u8>, kind: IoKind, end: End)
    ensures
        data.len() > 0 ==> reader_step(end, id, ReadOutcomeView::Data(data))
            == ReaderStepView::Send(OutFrameView::StreamData(id, data)),
        reader_step(end, id, ReadOutcomeView::Data(Seq::empty())) == ReaderStepView::Last(
            OutFrameView::StreamClose(id),
        ),
        reader_step(end, id, ReadOutcomeView::Failed(IoKind::WouldBlock)) == ReaderStepView::Wait,
        reader_step(End::Delegated, id, ReadOutcomeView::Failed(IoKind::Interrupted))
            == ReaderStepView::Again,
        kind != IoKind::WouldBlock && kind != IoKind::Interrupted ==> reader_step(
            End::Delegated,
            id,
            ReadOutcomeView::Failed(kind),
        ) == ReaderStepView::Last(OutFrameView::StreamClose(id)),
        kind != IoKind::WouldBlock ==> reader_step(End::StandIn, id, ReadOutcomeView::Failed(kind))
            == ReaderStepView::Stop,
{
}

/// What comes of a write, for every way that it can end. What was written is done with, and
/// the rest is written next. A write that takes nothing is a failure, but for a stand-in. A
/// write that would block waits and an interrupted one is repeated, where the other end is
/// one that does so; every other failure is handed on as it is.
pub proof fn writes_mean(sink: Sink, left: nat, n: usize, kind: IoKind)
    ensures
        n > 0 && n == left ==> write_step(sink, left, WriteOutcome::Wrote(n)) == (
            left,
            WriteStep::Done,
        ),
        0 < n < left ==> write_step(sink, left, WriteOutcome::Wrote(n)) == (
            n as nat,
            WriteStep::Again,
        ),
        write_step(Sink::Delegated, left, WriteOutcome::Wrote(0)) == (
            0nat,
            WriteStep::Failed(IoKind::Other),
        ),
        write_step(Sink::Plain, left, WriteOutcome::Wrote(0)) == (
            0nat,
            WriteStep::Failed(IoKind::WriteZero),
        ),
        write_step(Sink::StandIn, left, WriteOutcome::Wrote(0)) == (
            0nat,
            if left == 0 {
                WriteStep::Done
            } else {
                WriteStep::Again
            },
        ),
        write_step(sink, left, WriteOutcome::Failed(kind)).0 == 0,
        sink != Sink::StandIn ==> write_step(
            sink,
            left,
            WriteOutcome::Failed(IoKind::Interrupted),
        ).1 == WriteStep::Again,
        sink != Sink::Plain ==> write_step(sink, left, WriteOutcome::Failed(IoKind::WouldBlock)).1
            == WriteStep::Wait,
        write_step(Sink::StandIn, left, WriteOutcome::Failed(IoKind::Interrupted)).1
            == WriteStep::Failed(IoKind::Interrupted),
        write_step(Sink::Plain, left, WriteOutcome::Failed(IoKind::WouldBlock)).1
            == WriteStep::Failed(IoKind::WouldBlock),
        kind != IoKind::Interrupted && kind != IoKind::WouldBlock ==> write_step(
            sink,
            left,
            WriteOutcome::Failed(kind),
        ).1 == WriteStep::Failed(kind),
{
}

/// A relay reads when there is something to read. It can be cancelled only on its way to
/// the terminal, and there a cancellation goes first. An interrupted wait is repeated, and
/// any other failure of it ends the relay.
pub proof fn waits_mean(relay: Relay, source: bool, cancelled: bool, kind: IoKind)
    ensures
        relay_step(Relay::ToTerminal, PollOutcome::Ready { source, cancelled: true })
            == RelayStep::Stop,
        relay_step(Relay::ToTerminal, PollOutcome::Ready { source: true, cancelled: false })
            == RelayStep::Read,
        relay_step(Relay::ToClient, PollOutcome::Ready { source: true, cancelled })
            == RelayStep::Read,
        relay_step(Relay::ToClient, PollOutcome::Ready { source: false, cancelled })
            == RelayStep::Poll,
        relay_step(relay, PollOutcome::Ready { source: false, cancelled: false })
            == RelayStep::Poll,
        relay_step(relay, PollOutcome::Failed(IoKind::Interrupted)) == RelayStep::Poll,
        kind != IoKind::Interrupted ==> relay_step(relay, PollOutcome::Failed(kind))
            == RelayStep::Stop,
        Relay::ToTerminal.spec_cancellable() && !Relay::ToClient.spec_cancellable(),
        Relay::ToTerminal.spec_sink() == Sink::Plain,
        Relay::ToClient.spec_sink() == Sink::Delegated,
{
}

/// What the relay is told after a read: to write exactly the bytes that came, from the first
/// on, or to stop if none came.
pub proof fn relays_write_what_was_read(
    data: Vec<u8>,
    c: Option<WriteCursor>,
    kind: IoKind,
    failed: Option<WriteCursor>,
)
    requires
        call_ensures(relay_data, (ReadOutcome::Data(data),), c),
        call_ensures(relay_data, (ReadOutcome::Failed(kind),), failed),
    ensures
        data@.len() > 0 ==> (c matches Some(cursor) && cursor.data() == data@ && cursor.offset()
            == 0),
        data@.len() == 0 ==> c is None,
        failed is None,
{
}

/// What a stream's data becomes: it is written from the first byte on, and the end of the
/// stream ends the pump, which shuts a stand-in down and leaves a delegated descriptor open.
pub proof fn streams_are_written_out(
    end: End,
    data: Vec<u8>,
    written: WriterAction,
    closed: WriterAction,
)
    requires
        call_ensures(after_message, (end, StreamMsg::Data(data)), written),
        call_ensures(after_message, (end, StreamMsg::Close), closed),
    ensures
        written matches WriterAction::Write(c) && c.data() == data@ && c.offset() == 0,
        closed matches WriterAction::Stop { shut_down } && (shut_down <==> end == End::StandIn),
{
}

/// A new cursor has all of its data before it, and is done only if that is none.
pub proof fn cursors_start_at_the_first_byte(
    data: Vec<u8>,
    c: WriteCursor,
    rest: &[u8],
    done: bool,
)
    requires
        call_ensures(WriteCursor::new, (data,), c),
        call_ensures(WriteCursor::rest, (&c,), rest),
        call_ensures(WriteCursor::is_done, (&c,), done),
    ensures
        rest@ == data@,
        done <==> data@.len() == 0,
{
    assert(data@.skip(0) =~= data@);
}

/// Reads and what comes of them are shown as they are.
pub proof fn reads_are_shown(data: Vec<u8>, kind: IoKind, f: OutFrame)
    ensures
        ReadOutcome::Data(data)@ == ReadOutcomeView::Data(data@),
        ReadOutcome::Failed(kind)@ == ReadOutcomeView::Failed(kind),
        ReaderStep::Send(f)@ == ReaderStepView::Send(f@),
        ReaderStep::Last(f)@ == ReaderStepView::Last(f@),
        ReaderStep::Again@ == ReaderStepView::Again,
        ReaderStep::Wait@ == ReaderStepView::Wait,
        ReaderStep::Stop@ == ReaderStepView::Stop,
{
}

} // verus!
