//! Messages over a local stream socket, with the descriptors themselves beside them.

use crate::client;
use crate::client::{ClientRequestView, OutgoingView};
use crate::daemon::{ConfigStepView, ConfigurationView, DaemonConfigView};
use crate::error::{IoFailure, IoFailureView, IoKind, TransportError, TransportErrorView};
use crate::laws;
use crate::proto::field;
use crate::proto::header;
use crate::proto::laws::header_means;
use crate::proto::{FieldType, Header, Message, MessageView, ProtoErrorView, MAX_PAYLOAD};
use crate::pump::{Sink, WriteCursor, WriteOutcome, WriteStep};
use crate::transport::{Incoming, IncomingView, Received, ReceivedView};
use vstd::prelude::*;
use vstd::utf8::*;

verus! {

/// How a receive on the socket ended.
pub enum RecvOutcome<F> {
    /// Bytes came, and perhaps descriptors. No bytes at all mean that the peer is gone.
    Got(Vec<u8>, Vec<F>),
    /// The receive failed.
    Failed(IoFailure),
}

/// A [`RecvOutcome`] as a mathematical value.
#[verifier::ext_equal]
pub enum RecvOutcomeView<F> {
    Got(Seq<u8>, Seq<F>),
    Failed(IoFailureView),
}

impl<F> View for RecvOutcome<F> {
    type V = RecvOutcomeView<F>;

    open spec fn view(&self) -> RecvOutcomeView<F> {
        match *self {
            RecvOutcome::Got(data, fds) => RecvOutcomeView::Got(data@, fds@),
            RecvOutcome::Failed(e) => RecvOutcomeView::Failed(e@),
        }
    }
}

/// A message header that is being received, with the descriptors that came so far.
pub struct HeaderReader<F> {
    bytes: Vec<u8>,
    fds: Vec<F>,
}

/// A [`HeaderReader`] as a mathematical value.
#[verifier::ext_equal]
pub struct HeaderReaderView<F> {
    pub bytes: Seq<u8>,
    pub fds: Seq<F>,
}

impl<F> View for HeaderReader<F> {
    type V = HeaderReaderView<F>;

    closed spec fn view(&self) -> HeaderReaderView<F> {
        HeaderReaderView { bytes: self.bytes@, fds: self.fds@ }
    }
}

/// Where the receiving of a header stands.
pub enum HeaderStep<F> {
    /// Receive what is missing.
    More(HeaderReader<F>),
    /// The header is complete.
    Complete(Header, Vec<F>),
    /// The peer closed the connection between two messages.
    Closed,
    /// No header can be received.
    Failed(TransportError),
}

/// A [`HeaderStep`] as a mathematical value.
#[verifier::ext_equal]
pub enum HeaderStepView<F> {
    More(HeaderReaderView<F>),
    Complete(Header, Seq<F>),
    Closed,
    Failed(TransportErrorView),
}

impl<F> View for HeaderStep<F> {
    type V = HeaderStepView<F>;

    open spec fn view(&self) -> HeaderStepView<F> {
        match *self {
            HeaderStep::More(r) => HeaderStepView::More(r@),
            HeaderStep::Complete(h, fds) => HeaderStepView::Complete(h, fds@),
            HeaderStep::Closed => HeaderStepView::Closed,
            HeaderStep::Failed(e) => HeaderStepView::Failed(e@),
        }
    }
}

impl<F> HeaderReaderView<F> {
    /// Nothing has come.
    pub open spec fn start() -> HeaderReaderView<F> {
        HeaderReaderView { bytes: Seq::empty(), fds: Seq::empty() }
    }

    /// What a receive does to a header. The end of the connection is clean only before
    /// the first byte and the first descriptor.
    pub open spec fn step(self, outcome: RecvOutcomeView<F>) -> HeaderStepView<F> {
        match outcome {
            RecvOutcomeView::Got(data, fds) => {
                let all = self.bytes + data;
                if data.len() == 0 {
                    if self.bytes.len() == 0 && self.fds.len() == 0 {
                        HeaderStepView::Closed
                    } else {
                        HeaderStepView::Failed(TransportErrorView::UnexpectedEof)
                    }
                } else if all.len() < 5 {
                    HeaderStepView::More(HeaderReaderView { bytes: all, fds: self.fds + fds })
                } else {
                    match header::header_of(all) {
                        Ok(h) => HeaderStepView::Complete(h, self.fds + fds),
                        Err(e) => HeaderStepView::Failed(TransportErrorView::Proto(e@)),
                    }
                }
            },
            RecvOutcomeView::Failed(e) => if e.kind == IoKind::WouldBlock {
                HeaderStepView::More(self)
            } else {
                HeaderStepView::Failed(TransportErrorView::Io(e))
            },
        }
    }

    /// What a series of receives does to a header, up to the first that settles it.
    pub open spec fn run(self, outcomes: Seq<RecvOutcomeView<F>>) -> HeaderStepView<F>
        decreases outcomes.len(),
    {
        if outcomes.len() == 0 {
            HeaderStepView::More(self)
        } else {
            match self.step(outcomes[0]) {
                HeaderStepView::More(next) => next.run(outcomes.drop_first()),
                last => last,
            }
        }
    }
}

impl<F> HeaderReader<F> {
    #[verifier::type_invariant]
    spec fn incomplete(self) -> bool {
        self.bytes@.len() < 5
    }

    /// Nothing has come.
    pub fn start() -> (r: HeaderReader<F>)
        ensures
            r@ == HeaderReaderView::<F>::start(),
    {
        let r = HeaderReader { bytes: Vec::new(), fds: Vec::new() };
        assert(r@ =~= HeaderReaderView::<F>::start());
        r
    }

    /// How many bytes are missing.
    pub fn missing(&self) -> (n: usize)
        ensures
            n == 5 - self@.bytes.len(),
            n > 0,
    {
        proof {
            use_type_invariant(self);
        }
        5 - self.bytes.len()
    }

    /// Takes the outcome of a receive of the bytes that are missing.
    pub fn step(self, outcome: RecvOutcome<F>) -> (step: HeaderStep<F>)
        requires
            outcome@ matches RecvOutcomeView::Got(data, _) ==> data.len() <= 5 - self@.bytes.len(),
        ensures
            step@ == self@.step(outcome@),
    {
        proof {
            use_type_invariant(&self);
        }
        match outcome {
            RecvOutcome::Got(data, more) => {
                let mut bytes = self.bytes;
                let mut fds = self.fds;
                if data.is_empty() {
                    if bytes.is_empty() && fds.is_empty() {
                        return HeaderStep::Closed;
                    }
                    return HeaderStep::Failed(TransportError::UnexpectedEof);
                }
                let mut more = more;
                bytes.extend_from_slice(data.as_slice());
                assert(bytes@ =~= self@.bytes + data@);
                fds.append(&mut more);
                assert(fds@ =~= self@.fds + more_fds(outcome@));
                if bytes.len() < 5 {
                    return HeaderStep::More(HeaderReader { bytes, fds });
                }
                let head: [u8; 5] = [bytes[0], bytes[1], bytes[2], bytes[3], bytes[4]];
                assert(head@ =~= bytes@);
                match Header::decode(&head) {
                    Ok(h) => HeaderStep::Complete(h, fds),
                    Err(e) => HeaderStep::Failed(TransportError::Proto(e)),
                }
            },
            RecvOutcome::Failed(e) => {
                if e.kind == IoKind::WouldBlock {
                    HeaderStep::More(self)
                } else {
                    HeaderStep::Failed(TransportError::Io(e))
                }
            },
        }
    }
}

/// The descriptors that a receive brought.
pub open spec fn more_fds<F>(outcome: RecvOutcomeView<F>) -> Seq<F> {
    match outcome {
        RecvOutcomeView::Got(_, fds) => fds,
        RecvOutcomeView::Failed(_) => Seq::empty(),
    }
}

/// The bytes that a receive brought.
pub open spec fn more_bytes<F>(outcome: RecvOutcomeView<F>) -> Seq<u8> {
    match outcome {
        RecvOutcomeView::Got(data, _) => data,
        RecvOutcomeView::Failed(_) => Seq::empty(),
    }
}

/// What the receiving of a message comes to, once its header is complete and its payload
/// was read or could not be read.
pub fn complete_message<F>(
    header: Header,
    fds: Vec<F>,
    payload: Result<Vec<u8>, IoFailure>,
) -> (incoming: Incoming<F>)
    requires
        payload matches Ok(p) ==> p@.len() == header.len,
    ensures
        incoming@ == match payload {
            Ok(p) => IncomingView::Message(
                ReceivedView {
                    message: MessageView { field_type: header.field_type, payload: p@ },
                    fds: fds@,
                },
            ),
            Err(e) => IncomingView::Failed(
                if e.kind == IoKind::UnexpectedEof {
                    TransportErrorView::UnexpectedEof
                } else {
                    TransportErrorView::Io(e@)
                },
            ),
        },
{
    match payload {
        Ok(p) => Incoming::Message(Received { message: Message::new(header.field_type, p), fds }),
        Err(e) => {
            if e.kind == IoKind::UnexpectedEof {
                Incoming::Failed(TransportError::UnexpectedEof)
            } else {
                Incoming::Failed(TransportError::Io(e))
            }
        },
    }
}

/// A message that is being sent.
pub enum SendStep {
    /// Send what is left together with the descriptors.
    Attach(WriteCursor),
    /// Write what is left. The descriptors are on their way, if there are any.
    Rest(WriteCursor),
    /// The message is sent.
    Done,
    /// The message cannot be sent.
    Failed(IoKind),
}

/// Starts to send a message, with descriptors or without.
pub fn start_send(message: &Message, with_fds: bool) -> (step: SendStep)
    ensures
        with_fds ==> (step matches SendStep::Attach(c) && c.data() == message@.wire()
            && c.offset() == 0),
        !with_fds ==> (step matches SendStep::Rest(c) && c.data() == message@.wire()
            && c.offset() == 0),
{
    let c = WriteCursor::new(message.encode());
    if with_fds {
        SendStep::Attach(c)
    } else {
        SendStep::Rest(c)
    }
}

/// Takes the outcome of sending what was left together with the descriptors. They travel
/// with the first byte, so once any byte was taken they are not sent again.
pub fn after_attach(cursor: WriteCursor, outcome: WriteOutcome) -> (step: SendStep)
    requires
        outcome matches WriteOutcome::Wrote(n) ==> n <= cursor.data().len() - cursor.offset(),
    ensures
        match outcome {
            WriteOutcome::Wrote(n) => if cursor.offset() + n == cursor.data().len() {
                step is Done
            } else {
                step matches SendStep::Rest(c) && c.data() == cursor.data() && c.offset()
                    == cursor.offset() + n
            },
            WriteOutcome::Failed(kind) => if kind == IoKind::WouldBlock {
                step == SendStep::Attach(cursor)
            } else {
                step == SendStep::Failed(kind)
            },
        },
{
    let mut cursor = cursor;
    match outcome {
        WriteOutcome::Wrote(_) => {
            match cursor.advance(Sink::StandIn, outcome) {
                WriteStep::Done => SendStep::Done,
                _ => SendStep::Rest(cursor),
            }
        },
        WriteOutcome::Failed(kind) => {
            if kind == IoKind::WouldBlock {
                SendStep::Attach(cursor)
            } else {
                SendStep::Failed(kind)
            }
        },
    }
}

/// The security context in a buffer of which the first `len` bytes were filled: without
/// the zero byte that ends it, and only if there is anything else.
pub open spec fn context_of(buf: Seq<u8>, len: nat) -> Option<Seq<u8>> {
    let filled = if len < buf.len() {
        buf.take(len as int)
    } else {
        buf
    };
    let context = if filled.len() > 0 && filled.last() == 0 {
        filled.drop_last()
    } else {
        filled
    };
    if context.len() == 0 {
        None
    } else {
        Some(context)
    }
}

/// The security context in a buffer of which the first `len` bytes were filled.
pub fn peer_context(buf: Vec<u8>, len: usize) -> (context: Option<Vec<u8>>)
    ensures
        match context {
            Some(c) => context_of(buf@, len as nat) == Some(c@),
            None => context_of(buf@, len as nat) is None,
        },
{
    let mut buf = buf;
    let ghost all = buf@;
    if len < buf.len() {
        buf.truncate(len);
        assert(buf@ =~= all.take(len as int));
    }
    if !buf.is_empty() && buf[buf.len() - 1] == 0 {
        let ghost filled = buf@;
        let _ = buf.pop();
        assert(buf@ =~= filled.drop_last());
    }
    if buf.is_empty() {
        None
    } else {
        Some(buf)
    }
}

/// Whether a socket can be bound after the removal of a stale one failed: only if there
/// was none.
pub fn removal_allows_bind(failure: IoKind) -> (b: bool)
    ensures
        b == (failure == IoKind::NotFound),
{
    failure == IoKind::NotFound
}

/// Whether a new socket's owner is to be changed: where an owner or a group is asked for.
pub fn changes_owner(uid: Option<u32>, gid: Option<u32>) -> (b: bool)
    ensures
        b == (uid is Some || gid is Some),
{
    uid.is_some() || gid.is_some()
}

/// Whether a receive brought something or has to be tried again.
pub open spec fn helps<F>(outcome: RecvOutcomeView<F>) -> bool {
    match outcome {
        RecvOutcomeView::Got(data, _) => data.len() > 0,
        RecvOutcomeView::Failed(e) => e.kind == IoKind::WouldBlock,
    }
}

/// The bytes of a series of receives.
pub open spec fn all_bytes<F>(outcomes: Seq<RecvOutcomeView<F>>) -> Seq<u8>
    decreases outcomes.len(),
{
    if outcomes.len() == 0 {
        Seq::empty()
    } else {
        more_bytes(outcomes[0]) + all_bytes(outcomes.drop_first())
    }
}

/// The descriptors of a series of receives.
pub open spec fn all_fds<F>(outcomes: Seq<RecvOutcomeView<F>>) -> Seq<F>
    decreases outcomes.len(),
{
    if outcomes.len() == 0 {
        Seq::empty()
    } else {
        more_fds(outcomes[0]) + all_fds(outcomes.drop_first())
    }
}

/// A header is completed from wherever it stands.
proof fn header_completes<F>(
    r: HeaderReaderView<F>,
    h: Header,
    outcomes: Seq<RecvOutcomeView<F>>,
)
    requires
        h.len <= MAX_PAYLOAD,
        r.bytes.len() < 5,
        r.bytes + all_bytes(outcomes) == header::header_bytes(h),
        forall|i: int| 0 <= i < outcomes.len() ==> helps(#[trigger] outcomes[i]),
        outcomes.len() > 0 ==> outcomes.last() is Got,
    ensures
        r.run(outcomes) == HeaderStepView::Complete(h, r.fds + all_fds(outcomes)),
    decreases outcomes.len(),
{
    header::header_roundtrip(h);
    if outcomes.len() == 0 {
        assert(r.bytes + Seq::<u8>::empty() =~= r.bytes);
    } else {
        let rest = outcomes.drop_first();
        assert(helps(outcomes[0]));
        assert forall|i: int| 0 <= i < rest.len() implies helps(#[trigger] rest[i]) by {
            assert(rest[i] == outcomes[i + 1]);
        }
        if rest.len() > 0 {
            assert(rest.last() == outcomes.last());
        }
        match outcomes[0] {
            RecvOutcomeView::Got(data, fds) => {
                let all = r.bytes + data;
                assert(all + all_bytes(rest) =~= r.bytes + all_bytes(outcomes));
                if all.len() < 5 {
                    let next = HeaderReaderView { bytes: all, fds: r.fds + fds };
                    header_completes(next, h, rest);
                    assert((r.fds + fds) + all_fds(rest) =~= r.fds + all_fds(outcomes));
                } else {
                    assert(all_bytes(rest).len() == 0);
                    assert(all =~= header::header_bytes(h));
                    if rest.len() > 0 {
                        got_bytes_add_up(rest);
                    }
                    assert(rest.len() == 0);
                    assert(all_fds(rest) =~= Seq::empty());
                    assert(all_fds(outcomes) =~= fds);
                    assert(r.fds + fds =~= r.fds + all_fds(outcomes));
                }
            },
            RecvOutcomeView::Failed(_) => {
                assert(all_bytes(rest) =~= all_bytes(outcomes));
                assert(all_fds(rest) =~= all_fds(outcomes));
                header_completes(r, h, rest);
            },
        }
    }
}

/// Receives of which the last one brought something brought something.
proof fn got_bytes_add_up<F>(outcomes: Seq<RecvOutcomeView<F>>)
    requires
        outcomes.len() > 0,
        outcomes.last() is Got,
        helps(outcomes.last()),
    ensures
        all_bytes(outcomes).len() > 0,
    decreases outcomes.len(),
{
    if outcomes.len() > 1 {
        assert(outcomes.drop_first().last() == outcomes.last());
        got_bytes_add_up(outcomes.drop_first());
    }
}

/// It does not matter into which pieces the socket cuts a header, nor how often a receive
/// has to be tried again: the header is received as it was sent, with all descriptors
/// that came on the way.
pub proof fn header_in_any_pieces<F>(h: Header, outcomes: Seq<RecvOutcomeView<F>>)
    requires
        h.len <= MAX_PAYLOAD,
        all_bytes(outcomes) == header::header_bytes(h),
        forall|i: int| 0 <= i < outcomes.len() ==> helps(#[trigger] outcomes[i]),
        outcomes.len() > 0 ==> outcomes.last() is Got,
    ensures
        HeaderReaderView::<F>::start().run(outcomes) == HeaderStepView::Complete(
            h,
            all_fds(outcomes),
        ),
{
    let r = HeaderReaderView::<F>::start();
    assert(r.bytes + all_bytes(outcomes) =~= all_bytes(outcomes));
    assert(r.fds + all_fds(outcomes) =~= all_fds(outcomes));
    header_completes(r, h, outcomes);
}

/// A connection that ends between two messages is closed; one that ends within a header is
/// broken.
pub proof fn clean_end_is_between_messages<F>(r: HeaderReaderView<F>, fds: Seq<F>)
    ensures
        r.step(RecvOutcomeView::Got(Seq::empty(), fds)) == if r == HeaderReaderView::<F>::start() {
            HeaderStepView::<F>::Closed
        } else {
            HeaderStepView::Failed(TransportErrorView::UnexpectedEof)
        },
{
    if r.bytes.len() == 0 && r.fds.len() == 0 {
        assert(r =~= HeaderReaderView::<F>::start());
    }
}

/// Messages one after the other on the socket.
pub open spec fn socket_bytes(list: Seq<MessageView>) -> Seq<u8>
    decreases list.len(),
{
    if list.len() == 0 {
        Seq::empty()
    } else {
        list[0].wire() + socket_bytes(list.drop_first())
    }
}

/// The messages that a receiver finds on the socket: five bytes of header, then as many
/// bytes as it says, again and again until the connection ends or makes no sense.
pub open spec fn messages_of(stream: Seq<u8>) -> Seq<MessageView>
    decreases stream.len(),
{
    if stream.len() < 5 {
        Seq::empty()
    } else {
        match header::header_of(stream.take(5)) {
            Ok(h) => if stream.len() < 5 + h.len {
                Seq::empty()
            } else {
                let m = MessageView {
                    field_type: h.field_type,
                    payload: stream.subrange(5, 5 + h.len),
                };
                seq![m] + messages_of(stream.skip(5 + h.len))
            },
            Err(_) => Seq::empty(),
        }
    }
}

/// A message and more on the socket: the message is read, then the rest.
proof fn message_is_read(m: MessageView, rest: Seq<u8>)
    requires
        m.payload.len() <= MAX_PAYLOAD,
    ensures
        messages_of(m.wire() + rest) == seq![m] + messages_of(rest),
{
    let stream = m.wire() + rest;
    let len = m.payload.len() as int;
    header::header_roundtrip(m.header());
    assert(m.wire().len() == 5 + len);
    assert(stream.take(5) =~= header::header_bytes(m.header()));
    assert(stream.subrange(5, 5 + len) =~= m.payload);
    assert(stream.skip(5 + len) =~= rest);
}

/// Messages within the limit are read off the socket as they were written to it, in order.
pub proof fn socket_roundtrip(list: Seq<MessageView>)
    requires
        forall|i: int| 0 <= i < list.len() ==> (#[trigger] list[i]).payload.len() <= MAX_PAYLOAD,
    ensures
        messages_of(socket_bytes(list)) == list,
    decreases list.len(),
{
    if list.len() == 0 {
        assert(list =~= Seq::empty());
    } else {
        let rest = list.drop_first();
        assert forall|i: int| 0 <= i < rest.len() implies (#[trigger] rest[i]).payload.len()
            <= MAX_PAYLOAD by {
            assert(rest[i] == list[i + 1]);
        }
        assert(list[0].payload.len() <= MAX_PAYLOAD);
        socket_roundtrip(rest);
        message_is_read(list[0], socket_bytes(rest));
        assert(seq![list[0]] + rest =~= list);
    }
}

/// What arrives for messages that were read off the socket, where `sent` is what was sent
/// and `fds` are the descriptors that were delegated with it.
pub open spec fn socket_events<F>(
    sent: Seq<OutgoingView>,
    read: Seq<MessageView>,
    fds: Seq<F>,
) -> Seq<IncomingView<F>> {
    Seq::new(
        read.len(),
        |i: int|
            IncomingView::Message(
                ReceivedView {
                    message: read[i],
                    fds: if sent[i].dirs.len() == 0 {
                        Seq::empty()
                    } else {
                        fds
                    },
                },
            ),
    )
}

/// The whole way over a local socket: what a client asks for is what the daemon runs, as
/// far as its policy allows. The texts have to fit into messages.
pub proof fn configuration_over_socket<F>(
    config: DaemonConfigView,
    request: ClientRequestView,
    secret: Option<Seq<char>>,
    fds: Seq<F>,
)
    requires
        secret matches Some(s) ==> encode_utf8(s).len() <= MAX_PAYLOAD,
        request.winsize matches Some(dims) ==> dims.len() == 4,
        fds.len() == 3,
        forall|i: int| 0 <= i < request.args.len() ==> encode_utf8(#[trigger] request.args[i]).len()
            <= MAX_PAYLOAD,
        forall|i: int| 0 <= i < request.env.len() ==> encode_utf8(#[trigger] request.env[i]).len()
            <= MAX_PAYLOAD,
    ensures
        ({
            let sent = client::configuration(request, secret);
            let stream = socket_bytes(sent.map_values(|o: OutgoingView| o.message));
            ConfigurationView::start(config).run(
                config,
                socket_events(sent, messages_of(stream), fds),
            ) == ConfigStepView::Complete(laws::granted(config, request, fds))
        }),
{
    let sent = client::configuration(request, secret);
    let list = sent.map_values(|o: OutgoingView| o.message);
    let s = client::secret_messages(secret).len() as int;
    let n = s + request.env.len();
    let k = n + request.args.len();
    assert forall|i: int| 0 <= i < list.len() implies (#[trigger] list[i]).payload.len()
        <= MAX_PAYLOAD by {
        if i < s {
            assert(sent[i] == client::secret_messages(secret)[i]);
        } else if i < n {
            assert(list[i] == MessageView::of_text(FieldType::Env, request.env[i - s]));
        } else if i < k {
            assert(list[i] == MessageView::of_text(FieldType::Arg, request.args[i - n]));
        }
    }
    socket_roundtrip(list);
    laws::configuration_is_granted(config, request, secret, fds);
    assert(socket_events(sent, list, fds) =~= laws::delivered(sent, fds));
}

/// The peer's context is what was filled in, without the one zero that may end it, and an
/// empty one is none.
pub proof fn contexts_mean(c: Seq<u8>, rest: Seq<u8>, more: nat)
    requires
        c.len() > 0,
    ensures
        c.last() != 0 ==> context_of(c + rest, c.len()) == Some(c),
        c.last() != 0 ==> context_of(c, c.len() + more) == Some(c),
        context_of(c.push(0) + rest, c.len() + 1) == Some(c),
        context_of(c.push(0), c.len() + 1 + more) == Some(c),
        context_of(rest, 0) is None,
        context_of(seq![0u8] + rest, 1) is None,
        context_of(seq![0u8], 1 + more) is None,
        context_of(Seq::empty(), more) is None,
{
    assert((c + rest).take(c.len() as int) =~= c);
    assert((c.push(0) + rest).take(c.len() as int + 1) =~= c.push(0));
    assert(c.push(0).drop_last() =~= c);
    if rest.len() == 0 {
        assert(c + rest =~= c);
        assert(c.push(0) + rest =~= c.push(0));
        assert(seq![0u8] + rest =~= seq![0u8]);
    }
    assert((seq![0u8] + rest).take(1) =~= seq![0u8]);
}

/// Reading a header goes on as long as something comes and it is not complete, and while
/// nothing is there to read; every other failure is handed on as it is.
pub proof fn header_reads_mean<F>(
    r: HeaderReaderView<F>,
    data: Seq<u8>,
    fds: Seq<F>,
    e: IoFailureView,
)
    ensures
        data.len() > 0 && r.bytes.len() + data.len() < 5 ==> (r.step(
            RecvOutcomeView::Got(data, fds),
        ) matches HeaderStepView::More(next) && next.bytes == r.bytes + data && next.fds == r.fds
            + fds),
        e.kind == IoKind::WouldBlock ==> r.step(RecvOutcomeView::Failed(e)) == HeaderStepView::More(
            r,
        ),
        e.kind != IoKind::WouldBlock ==> r.step(RecvOutcomeView::Failed(e))
            == HeaderStepView::<F>::Failed(TransportErrorView::Io(e)),
        r.step(RecvOutcomeView::Got(Seq::empty(), fds)) is Closed <==> r.bytes.len() == 0
            && r.fds.len() == 0,
        r.bytes.len() > 0 || r.fds.len() > 0 ==> r.step(RecvOutcomeView::Got(Seq::empty(), fds))
            == HeaderStepView::<F>::Failed(TransportErrorView::UnexpectedEof),
        HeaderReaderView::<F>::start().bytes.len() == 0,
        HeaderReaderView::<F>::start().fds.len() == 0,
{
}

/// A complete header gives its kind and its length, with all descriptors that came on the
/// way; one of an unknown kind, or with too great a length, is refused.
pub proof fn complete_headers_mean<F>(r: HeaderReaderView<F>, data: Seq<u8>, fds: Seq<F>)
    requires
        data.len() > 0,
        r.bytes.len() + data.len() == 5,
    ensures
        ({
            let all = r.bytes + data;
            let known = 1 <= all[0] <= 9 || all[0] == 255;
            let len = all[1] + 0x100 * all[2] + 0x1_0000 * all[3] + 0x100_0000 * all[4];
            match r.step(RecvOutcomeView::Got(data, fds)) {
                HeaderStepView::Complete(h, got) => known && len <= 0x100_0000 && h.len == len
                    && field::field_wire(h.field_type) == all[0] && got == r.fds + fds,
                HeaderStepView::Failed(
                    TransportErrorView::Proto(ProtoErrorView::UnknownFieldType(b)),
                ) => !known && b == all[0],
                HeaderStepView::Failed(
                    TransportErrorView::Proto(ProtoErrorView::PayloadTooLarge(n)),
                ) => known && len > 0x100_0000 && n == len,
                _ => false,
            }
        }),
{
    header_means(r.bytes + data);
}

/// A socket may be bound after an old one could not be removed only if there was none.
pub proof fn missing_sockets_need_no_removal(failure: IoKind, b: bool)
    requires
        call_ensures(removal_allows_bind, (failure,), b),
    ensures
        b <==> failure == IoKind::NotFound,
{
}

/// The owner of a socket is changed exactly if a user or a group was asked for.
pub proof fn owners_change_where_asked(uid: Option<u32>, gid: Option<u32>, b: bool)
    requires
        call_ensures(changes_owner, (uid, gid), b),
    ensures
        uid is None && gid is None ==> !b,
        uid is Some ==> b,
        gid is Some ==> b,
{
}

/// A header and its payload make a message, with the descriptors that came; a payload that
/// breaks off is an end in the middle of a message, and any other failure is handed on.
pub proof fn payloads_complete_messages<F>(
    header: Header,
    fds: Vec<F>,
    payload: Vec<u8>,
    e: IoFailure,
    got: Incoming<F>,
    failed: Incoming<F>,
)
    requires
        call_ensures(complete_message, (header, fds, Ok::<Vec<u8>, IoFailure>(payload)), got),
        call_ensures(complete_message, (header, fds, Err::<Vec<u8>, IoFailure>(e)), failed),
    ensures
        got@ matches IncomingView::Message(r) && r.message.field_type == header.field_type
            && r.message.payload == payload@ && r.fds == fds@,
        e.kind == IoKind::UnexpectedEof ==> failed@ == IncomingView::<F>::Failed(
            TransportErrorView::UnexpectedEof,
        ),
        e.kind != IoKind::UnexpectedEof ==> failed@ == IncomingView::<F>::Failed(
            TransportErrorView::Io(e@),
        ),
{
}

/// A message is sent from its first byte on, with its descriptors if there are any, and what
/// the first write leaves is sent without them; a write that would block is tried again as a
/// whole, so that the descriptors go out once.
pub proof fn descriptors_go_with_the_first_bytes(
    m: Message,
    with_fds: SendStep,
    without: SendStep,
    cursor: WriteCursor,
    n: usize,
    wrote: SendStep,
    kind: IoKind,
    failed: SendStep,
)
    requires
        call_ensures(start_send, (&m, true), with_fds),
        call_ensures(start_send, (&m, false), without),
        call_ensures(after_attach, (cursor, WriteOutcome::Wrote(n)), wrote),
        call_ensures(after_attach, (cursor, WriteOutcome::Failed(kind)), failed),
    ensures
        with_fds matches SendStep::Attach(c) && c.data() == m@.wire() && c.offset() == 0,
        without matches SendStep::Rest(c) && c.data() == m@.wire() && c.offset() == 0,
        cursor.offset() + n == cursor.data().len() <==> wrote is Done,
        cursor.offset() + n != cursor.data().len() ==> (wrote matches SendStep::Rest(c) && c.data()
            == cursor.data() && c.offset() == cursor.offset() + n),
        kind == IoKind::WouldBlock ==> failed == SendStep::Attach(cursor),
        kind != IoKind::WouldBlock ==> failed == SendStep::Failed(kind),
{
}

/// Receives and what comes of them are shown as they are.
pub proof fn receives_are_shown<F>(
    data: Vec<u8>,
    fds: Vec<F>,
    e: IoFailure,
    r: HeaderReader<F>,
    h: Header,
    failure: TransportError,
)
    ensures
        RecvOutcome::Got(data, fds)@ == RecvOutcomeView::Got(data@, fds@),
        RecvOutcome::<F>::Failed(e)@ == RecvOutcomeView::<F>::Failed(e@),
        HeaderStep::More(r)@ == HeaderStepView::More(r@),
        HeaderStep::Complete(h, fds)@ == HeaderStepView::Complete(h, fds@),
        HeaderStep::<F>::Closed@ == HeaderStepView::<F>::Closed,
        HeaderStep::<F>::Failed(failure)@ == HeaderStepView::<F>::Failed(failure@),
{
}

/// A header is read up to its five bytes and no further.
pub proof fn headers_are_read_to_their_end<F>(r: HeaderReader<F>, n: usize)
    requires
        call_ensures(HeaderReader::<F>::missing, (&r,), n),
    ensures
        r@.bytes.len() + n == 5,
        n > 0,
{
}

} // verus!
