//! What every transport conveys: messages, and descriptors beside them.
//!
//! The library never looks into a descriptor. Whatever stands for one is the type
//! parameter `F`: an owned descriptor in a program, anything at all in a proof.

use crate::error::{TransportError, TransportErrorView};
use crate::proto::{Message, MessageView};
use vstd::prelude::*;

verus! {

/// A message with the descriptors that came beside it.
pub struct Received<F> {
    /// The message.
    pub message: Message,
    /// The descriptors, owned by the receiver.
    pub fds: Vec<F>,
}

/// A [`Received`] as a mathematical value.
pub struct ReceivedView<F> {
    pub message: MessageView,
    pub fds: Seq<F>,
}

impl<F> View for Received<F> {
    type V = ReceivedView<F>;

    open spec fn view(&self) -> ReceivedView<F> {
        ReceivedView { message: self.message@, fds: self.fds@ }
    }
}

/// What a wait for the next message ends with.
pub enum Incoming<F> {
    /// A message came.
    Message(Received<F>),
    /// The peer closed the connection between two messages.
    Closed,
    /// The transport failed.
    Failed(TransportError),
}

/// An [`Incoming`] as a mathematical value.
pub enum IncomingView<F> {
    Message(ReceivedView<F>),
    Closed,
    Failed(TransportErrorView),
}

impl<F> View for Incoming<F> {
    type V = IncomingView<F>;

    open spec fn view(&self) -> IncomingView<F> {
        match *self {
            Incoming::Message(r) => IncomingView::Message(r@),
            Incoming::Closed => IncomingView::Closed,
            Incoming::Failed(e) => IncomingView::Failed(e@),
        }
    }
}

/// Who is at the other end of a connection, where the transport can tell.
#[derive(Clone, Copy, Debug, PartialEq, Eq, Structural)]
pub struct PeerCred {
    /// Process id of the peer.
    pub pid: i32,
    /// User id of the peer.
    pub uid: u32,
    /// Group id of the peer.
    pub gid: u32,
}

/// What the side that delegates a descriptor does with it.
#[derive(Clone, Copy, Debug, PartialEq, Eq, Structural)]
pub enum FdDir {
    /// It reads the descriptor, and the peer gets what was read.
    Read,
    /// It writes to the descriptor what the peer sends.
    Write,
    /// Both.
    ReadWrite,
}

impl FdDir {
    /// Whether the descriptor is read on this side.
    pub open spec fn spec_reads(self) -> bool {
        self != FdDir::Write
    }

    /// Whether the descriptor is written on this side.
    pub open spec fn spec_writes(self) -> bool {
        self != FdDir::Read
    }

    /// What the other side does with its end.
    pub open spec fn spec_invert(self) -> FdDir {
        match self {
            FdDir::Read => FdDir::Write,
            FdDir::Write => FdDir::Read,
            FdDir::ReadWrite => FdDir::ReadWrite,
        }
    }

    /// Whether the descriptor is read on this side.
    pub fn reads(self) -> (b: bool)
        ensures
            b == self.spec_reads(),
    {
        match self {
            FdDir::Write => false,
            _ => true,
        }
    }

    /// Whether the descriptor is written on this side.
    pub fn writes(self) -> (b: bool)
        ensures
            b == self.spec_writes(),
    {
        match self {
            FdDir::Read => false,
            _ => true,
        }
    }

    /// What the other side does with its end.
    pub fn invert(self) -> (d: FdDir)
        ensures
            d == self.spec_invert(),
    {
        match self {
            FdDir::Read => FdDir::Write,
            FdDir::Write => FdDir::Read,
            FdDir::ReadWrite => FdDir::ReadWrite,
        }
    }
}

/// What one side reads the other writes, and the other way round; and the other side of
/// the other side is this one.
pub proof fn directions_meet(d: FdDir)
    ensures
        d.spec_reads() == d.spec_invert().spec_writes(),
        d.spec_writes() == d.spec_invert().spec_reads(),
        d.spec_invert().spec_invert() == d,
{
}

/// A direction says on which side a descriptor is read and on which it is written: `Read`
/// is read here and written over there, `Write` the other way round, and `ReadWrite` is both
/// on both sides.
pub proof fn directions_mean(d: FdDir)
    ensures
        d.spec_reads() <==> d == FdDir::Read || d == FdDir::ReadWrite,
        d.spec_writes() <==> d == FdDir::Write || d == FdDir::ReadWrite,
        d.spec_invert().spec_writes() <==> d == FdDir::Read || d == FdDir::ReadWrite,
        d.spec_invert().spec_reads() <==> d == FdDir::Write || d == FdDir::ReadWrite,
{
}

/// What was received is shown as it is.
pub proof fn received_values_are_shown<F>(r: Received<F>, e: TransportError)
    ensures
        r@.message == r.message@,
        r@.fds == r.fds@,
        Incoming::Message(r)@ == IncomingView::Message(r@),
        Incoming::<F>::Closed@ == IncomingView::<F>::Closed,
        Incoming::<F>::Failed(e)@ == IncomingView::<F>::Failed(e@),
{
}

/// What a direction says of itself: whether it reads, whether it writes, and which direction
/// the other side has.
pub proof fn directions_say_what_they_are(d: FdDir, reads: bool, writes: bool, other: FdDir)
    requires
        call_ensures(FdDir::reads, (d,), reads),
        call_ensures(FdDir::writes, (d,), writes),
        call_ensures(FdDir::invert, (d,), other),
    ensures
        d == FdDir::Read ==> reads && !writes && other == FdDir::Write,
        d == FdDir::Write ==> !reads && writes && other == FdDir::Read,
        d == FdDir::ReadWrite ==> reads && writes && other == FdDir::ReadWrite,
{
}

} // verus!
