//! Errors of transports and of sessions.

use crate::proto::{ProtoError, ProtoErrorView};
use crate::text::join;
use vstd::prelude::*;

verus! {

/// What the library tells apart among the failures of an I/O call.
#[derive(Clone, Copy, PartialEq, Eq, Debug, Structural)]
pub enum IoKind {
    /// The named file does not exist.
    NotFound,
    /// The call would have had to wait.
    WouldBlock,
    /// A signal interrupted the call.
    Interrupted,
    /// The stream ended too early.
    UnexpectedEof,
    /// A write took no byte.
    WriteZero,
    /// Any other failure.
    Other,
}

/// A failure of an I/O call: its kind, and the system's words for it.
#[derive(Debug)]
pub struct IoFailure {
    /// The kind of failure.
    pub kind: IoKind,
    /// The failure in words.
    pub text: String,
}

/// An [`IoFailure`] as a mathematical value.
pub struct IoFailureView {
    pub kind: IoKind,
    pub text: Seq<char>,
}

impl View for IoFailure {
    type V = IoFailureView;

    open spec fn view(&self) -> IoFailureView {
        IoFailureView { kind: self.kind, text: self.text@ }
    }
}

/// What can go wrong while a transport carries messages.
#[derive(Debug)]
pub enum TransportError {
    /// An underlying I/O failure.
    Io(IoFailure),
    /// The peer sent bytes that hold no message.
    Proto(ProtoError),
    /// The stream ended within a message.
    UnexpectedEof,
    /// A failure of the transport's own, in words.
    Other(String),
}

/// A [`TransportError`] as a mathematical value.
pub enum TransportErrorView {
    Io(IoFailureView),
    Proto(ProtoErrorView),
    UnexpectedEof,
    Other(Seq<char>),
}

impl View for TransportError {
    type V = TransportErrorView;

    open spec fn view(&self) -> TransportErrorView {
        match *self {
            TransportError::Io(e) => TransportErrorView::Io(e@),
            TransportError::Proto(e) => TransportErrorView::Proto(e@),
            TransportError::UnexpectedEof => TransportErrorView::UnexpectedEof,
            TransportError::Other(s) => TransportErrorView::Other(s@),
        }
    }
}

impl TransportErrorView {
    /// The error in words.
    pub open spec fn text(self) -> Seq<char> {
        match self {
            TransportErrorView::Io(e) => "transport i/o: "@ + e.text,
            TransportErrorView::Proto(e) => "protocol: "@ + e.text(),
            TransportErrorView::UnexpectedEof =>
                "unexpected end of stream while reading a message"@,
            TransportErrorView::Other(s) => s,
        }
    }
}

impl TransportError {
    /// The error in words.
    pub fn message(&self) -> (s: String)
        ensures
            s@ == self@.text(),
    {
        match self {
            TransportError::Io(e) => join("transport i/o: ", e.text.as_str()),
            TransportError::Proto(e) => {
                let inner = e.message();
                join("protocol: ", inner.as_str())
            },
            TransportError::UnexpectedEof =>
                "unexpected end of stream while reading a message".to_owned(),
            TransportError::Other(s) => s.as_str().to_owned(),
        }
    }
}

impl From<IoFailure> for TransportError {
    fn from(e: IoFailure) -> (r: TransportError) {
        TransportError::Io(e)
    }
}

impl vstd::std_specs::convert::FromSpecImpl<IoFailure> for TransportError {
    open spec fn obeys_from_spec() -> bool {
        true
    }

    open spec fn from_spec(e: IoFailure) -> TransportError {
        TransportError::Io(e)
    }
}

impl From<ProtoError> for TransportError {
    fn from(e: ProtoError) -> (r: TransportError) {
        TransportError::Proto(e)
    }
}

impl vstd::std_specs::convert::FromSpecImpl<ProtoError> for TransportError {
    open spec fn obeys_from_spec() -> bool {
        true
    }

    open spec fn from_spec(e: ProtoError) -> TransportError {
        TransportError::Proto(e)
    }
}

/// What can go wrong in a session of the client or of the daemon.
#[derive(Debug)]
pub enum CoreError {
    /// A failure of the transport.
    Transport(TransportError),
    /// A payload that could not be read.
    Proto(ProtoError),
    /// A local I/O failure, such as one of starting the program.
    Io(IoFailure),
    /// The daemon hung up before it reported an exit status.
    DaemonClosed,
    /// The client hung up before its configuration was complete.
    ClientClosed,
    /// The peer sent what the protocol does not allow.
    Protocol(&'static str),
    /// The daemon refused to run the program, in its own words.
    Refused(String),
}

/// A [`CoreError`] as a mathematical value.
pub enum CoreErrorView {
    Transport(TransportErrorView),
    Proto(ProtoErrorView),
    Io(IoFailureView),
    DaemonClosed,
    ClientClosed,
    Protocol(Seq<char>),
    Refused(Seq<char>),
}

impl View for CoreError {
    type V = CoreErrorView;

    open spec fn view(&self) -> CoreErrorView {
        match *self {
            CoreError::Transport(e) => CoreErrorView::Transport(e@),
            CoreError::Proto(e) => CoreErrorView::Proto(e@),
            CoreError::Io(e) => CoreErrorView::Io(e@),
            CoreError::DaemonClosed => CoreErrorView::DaemonClosed,
            CoreError::ClientClosed => CoreErrorView::ClientClosed,
            CoreError::Protocol(s) => CoreErrorView::Protocol(s@),
            CoreError::Refused(s) => CoreErrorView::Refused(s@),
        }
    }
}

impl CoreErrorView {
    /// The error in words.
    pub open spec fn text(self) -> Seq<char> {
        match self {
            CoreErrorView::Transport(e) => e.text(),
            CoreErrorView::Proto(e) => e.text(),
            CoreErrorView::Io(e) => "i/o: "@ + e.text,
            CoreErrorView::DaemonClosed =>
                "daemon closed the connection before sending an exit status"@,
            CoreErrorView::ClientClosed =>
                "client closed the connection before completing configuration"@,
            CoreErrorView::Protocol(s) => "protocol violation: "@ + s,
            CoreErrorView::Refused(s) => s,
        }
    }
}

impl CoreError {
    /// The error in words.
    pub fn message(&self) -> (s: String)
        ensures
            s@ == self@.text(),
    {
        match self {
            CoreError::Transport(e) => e.message(),
            CoreError::Proto(e) => e.message(),
            CoreError::Io(e) => join("i/o: ", e.text.as_str()),
            CoreError::DaemonClosed =>
                "daemon closed the connection before sending an exit status".to_owned(),
            CoreError::ClientClosed =>
                "client closed the connection before completing configuration".to_owned(),
            CoreError::Protocol(s) => join("protocol violation: ", s),
            CoreError::Refused(s) => s.as_str().to_owned(),
        }
    }
}

impl From<TransportError> for CoreError {
    fn from(e: TransportError) -> (r: CoreError) {
        CoreError::Transport(e)
    }
}

impl vstd::std_specs::convert::FromSpecImpl<TransportError> for CoreError {
    open spec fn obeys_from_spec() -> bool {
        true
    }

    open spec fn from_spec(e: TransportError) -> CoreError {
        CoreError::Transport(e)
    }
}

impl From<ProtoError> for CoreError {
    fn from(e: ProtoError) -> (r: CoreError) {
        CoreError::Proto(e)
    }
}

impl vstd::std_specs::convert::FromSpecImpl<ProtoError> for CoreError {
    open spec fn obeys_from_spec() -> bool {
        true
    }

    open spec fn from_spec(e: ProtoError) -> CoreError {
        CoreError::Proto(e)
    }
}

impl From<IoFailure> for CoreError {
    fn from(e: IoFailure) -> (r: CoreError) {
        CoreError::Io(e)
    }
}

impl vstd::std_specs::convert::FromSpecImpl<IoFailure> for CoreError {
    open spec fn obeys_from_spec() -> bool {
        true
    }

    open spec fn from_spec(e: IoFailure) -> CoreError {
        CoreError::Io(e)
    }
}

/// What each error says: a failure of the system in the system's words, with where it came
/// about; a failure of the protocol in the protocol's words; and a refusal in the daemon's.
pub proof fn errors_say_what_is_wrong(
    io: IoFailureView,
    proto: ProtoErrorView,
    transport: TransportErrorView,
    s: Seq<char>,
)
    ensures
        TransportErrorView::Io(io).text() == "transport i/o: "@ + io.text,
        TransportErrorView::Proto(proto).text() == "protocol: "@ + proto.text(),
        TransportErrorView::UnexpectedEof.text()
            == "unexpected end of stream while reading a message"@,
        TransportErrorView::Other(s).text() == s,
        CoreErrorView::Transport(transport).text() == transport.text(),
        CoreErrorView::Proto(proto).text() == proto.text(),
        CoreErrorView::Io(io).text() == "i/o: "@ + io.text,
        CoreErrorView::DaemonClosed.text()
            == "daemon closed the connection before sending an exit status"@,
        CoreErrorView::ClientClosed.text()
            == "client closed the connection before completing configuration"@,
        CoreErrorView::Protocol(s).text() == "protocol violation: "@ + s,
        CoreErrorView::Refused(s).text() == s,
{
}

/// An error that is handed on stays what it is.
pub proof fn errors_are_handed_on(
    io: IoFailure,
    proto: ProtoError,
    transport: TransportError,
    a: TransportError,
    b: TransportError,
    c: CoreError,
    d: CoreError,
    e: CoreError,
)
    requires
        call_ensures(<TransportError as From<IoFailure>>::from, (io,), a),
        call_ensures(<TransportError as From<ProtoError>>::from, (proto,), b),
        call_ensures(<CoreError as From<TransportError>>::from, (transport,), c),
        call_ensures(<CoreError as From<ProtoError>>::from, (proto,), d),
        call_ensures(<CoreError as From<IoFailure>>::from, (io,), e),
    ensures
        a == TransportError::Io(io),
        b == TransportError::Proto(proto),
        c == CoreError::Transport(transport),
        d == CoreError::Proto(proto),
        e == CoreError::Io(io),
{
}

/// Errors are shown as they are.
pub proof fn errors_are_shown(
    io: IoFailure,
    proto: ProtoError,
    s: String,
    transport: TransportError,
    why: &'static str,
)
    ensures
        io@.kind == io.kind,
        io@.text == io.text@,
        TransportError::Io(io)@ == TransportErrorView::Io(io@),
        TransportError::Proto(proto)@ == TransportErrorView::Proto(proto@),
        TransportError::UnexpectedEof@ == TransportErrorView::UnexpectedEof,
        TransportError::Other(s)@ == TransportErrorView::Other(s@),
        CoreError::Transport(transport)@ == CoreErrorView::Transport(transport@),
        CoreError::Proto(proto)@ == CoreErrorView::Proto(proto@),
        CoreError::Io(io)@ == CoreErrorView::Io(io@),
        CoreError::DaemonClosed@ == CoreErrorView::DaemonClosed,
        CoreError::ClientClosed@ == CoreErrorView::ClientClosed,
        CoreError::Protocol(why)@ == CoreErrorView::Protocol(why@),
        CoreError::Refused(s)@ == CoreErrorView::Refused(s@),
{
}

} // verus!
