//! The client's side of a session.

use crate::bytes;
use crate::error::{CoreError, CoreErrorView};
use crate::proto::laws::{exit_roundtrip, payloads_mean, text_roundtrip};
use crate::proto::{FieldType, Message, MessageView, ProtoErrorView, SessionType};
use crate::text;
use crate::transport::{FdDir, Incoming, IncomingView};
use vstd::prelude::*;
use vstd::string::*;
use vstd::utf8::*;

verus! {

/// What the client asks the daemon to do.
pub struct ClientRequest {
    /// The program and its arguments. Empty means that the daemon decides.
    pub args: Vec<String>,
    /// Environment entries, each `KEY=VALUE`.
    pub env: Vec<String>,
    /// How the standard streams are to be wired up.
    pub session_type: SessionType,
    /// Terminal dimensions (rows, columns, x pixels, y pixels) of an interactive
    /// session.
    pub winsize: Option<[u16; 4]>,
}

/// A [`ClientRequest`] as a mathematical value.
#[verifier::ext_equal]
pub struct ClientRequestView {
    pub args: Seq<Seq<char>>,
    pub env: Seq<Seq<char>>,
    pub session_type: SessionType,
    pub winsize: Option<Seq<u16>>,
}

impl View for ClientRequest {
    type V = ClientRequestView;

    open spec fn view(&self) -> ClientRequestView {
        ClientRequestView {
            args: text::texts(self.args@),
            env: text::texts(self.env@),
            session_type: self.session_type,
            winsize: match self.winsize {
                Some(dims) => Some(dims@),
                None => None,
            },
        }
    }
}

/// A message to send, and how this side uses each descriptor that goes with it.
pub struct Outgoing {
    /// The message.
    pub message: Message,
    /// One direction per descriptor.
    pub dirs: Vec<FdDir>,
}

/// An [`Outgoing`] as a mathematical value.
#[verifier::ext_equal]
pub struct OutgoingView {
    pub message: MessageView,
    pub dirs: Seq<FdDir>,
}

impl View for Outgoing {
    type V = OutgoingView;

    open spec fn view(&self) -> OutgoingView {
        OutgoingView { message: self.message@, dirs: self.dirs@ }
    }
}

/// The mathematical values of a list of outgoing messages.
pub open spec fn outgoing_views(list: Seq<Outgoing>) -> Seq<OutgoingView> {
    list.map_values(|o: Outgoing| o@)
}

/// A message without descriptors.
pub open spec fn plain(message: MessageView) -> OutgoingView {
    OutgoingView { message, dirs: Seq::empty() }
}

/// One message per text.
pub open spec fn text_messages(t: FieldType, list: Seq<Seq<char>>) -> Seq<OutgoingView> {
    list.map_values(|s: Seq<char>| plain(MessageView::of_text(t, s)))
}

/// The secret to present, if there is one.
pub open spec fn secret_messages(secret: Option<Seq<char>>) -> Seq<OutgoingView> {
    match secret {
        Some(s) => seq![plain(MessageView::secret(encode_utf8(s)))],
        None => Seq::empty(),
    }
}

/// The terminal dimensions, if there are any.
pub open spec fn winsize_messages(winsize: Option<Seq<u16>>) -> Seq<OutgoingView> {
    match winsize {
        Some(dims) => seq![plain(MessageView::winsize(dims))],
        None => Seq::empty(),
    }
}

/// The delegated descriptors: standard input, which this side reads, and standard output
/// and error, which it writes.
pub open spec fn stdio_message() -> OutgoingView {
    OutgoingView {
        message: MessageView::fds(3),
        dirs: seq![FdDir::Read, FdDir::Write, FdDir::Write],
    }
}

/// All that a client says: the secret, the environment, the arguments, the session type,
/// the terminal dimensions, the descriptors, and that this is all.
pub open spec fn configuration(
    request: ClientRequestView,
    secret: Option<Seq<char>>,
) -> Seq<OutgoingView> {
    secret_messages(secret) + text_messages(FieldType::Env, request.env) + text_messages(
        FieldType::Arg,
        request.args,
    ) + seq![plain(MessageView::session_type(request.session_type))] + winsize_messages(
        request.winsize,
    ) + seq![stdio_message(), plain(MessageView::end())]
}

/// Appends a message without descriptors.
fn push_plain(out: &mut Vec<Outgoing>, message: Message)
    ensures
        outgoing_views(final(out)@) == outgoing_views(old(out)@).push(plain(message@)),
{
    let ghost before = out@;
    let o = Outgoing { message, dirs: Vec::new() };
    assert(o@ =~= plain(message@));
    out.push(o);
    assert(outgoing_views(out@) =~= outgoing_views(before).push(plain(message@)));
}

/// All that a client says to configure its session, in order.
pub fn configuration_messages(request: &ClientRequest, secret: Option<&str>) -> (out: Vec<Outgoing>)
    ensures
        outgoing_views(out@) == configuration(
            request@,
            match secret {
                Some(s) => Some(s@),
                None => None,
            },
        ),
{
    let ghost req = request@;
    let ghost sec: Option<Seq<char>> = match secret {
        Some(s) => Some(s@),
        None => None,
    };
    let mut out: Vec<Outgoing> = Vec::new();
    assert(outgoing_views(out@) =~= Seq::empty());
    match secret {
        Some(s) => {
            push_plain(&mut out, Message::secret(s.as_bytes()));
        },
        None => {},
    }
    assert(outgoing_views(out@) =~= secret_messages(sec));
    let ghost head = outgoing_views(out@);
    let ghost envs = text_messages(FieldType::Env, req.env);
    let mut i: usize = 0;
    assert(head + envs.take(0) =~= head);
    while i < request.env.len()
        invariant
            req == request@,
            i <= request.env@.len(),
            envs == text_messages(FieldType::Env, req.env),
            outgoing_views(out@) == head + envs.take(i as int),
        decreases request.env@.len() - i,
    {
        push_plain(&mut out, Message::env(request.env[i].as_str()));
        i = i + 1;
        assert(envs.take(i as int) =~= envs.take(i - 1).push(envs[i - 1]));
        assert(outgoing_views(out@) =~= head + envs.take(i as int));
    }
    assert(envs.take(i as int) =~= envs);
    let ghost head2 = outgoing_views(out@);
    let ghost args = text_messages(FieldType::Arg, req.args);
    let mut k: usize = 0;
    assert(head2 + args.take(0) =~= head2);
    while k < request.args.len()
        invariant
            req == request@,
            k <= request.args@.len(),
            args == text_messages(FieldType::Arg, req.args),
            outgoing_views(out@) == head2 + args.take(k as int),
        decreases request.args@.len() - k,
    {
        push_plain(&mut out, Message::arg(request.args[k].as_str()));
        k = k + 1;
        assert(args.take(k as int) =~= args.take(k - 1).push(args[k - 1]));
        assert(outgoing_views(out@) =~= head2 + args.take(k as int));
    }
    assert(args.take(k as int) =~= args);
    push_plain(&mut out, Message::session_type(request.session_type));
    match request.winsize {
        Some(dims) => {
            push_plain(&mut out, Message::winsize(dims));
        },
        None => {},
    }
    let ghost before = out@;
    let dirs: Vec<FdDir> = vec![FdDir::Read, FdDir::Write, FdDir::Write];
    let stdio = Outgoing { message: Message::fds(3), dirs };
    assert(stdio@ =~= stdio_message());
    out.push(stdio);
    assert(outgoing_views(out@) =~= outgoing_views(before).push(stdio_message()));
    push_plain(&mut out, Message::end());
    assert(outgoing_views(out@) =~= configuration(req, sec));
    out
}

/// How a client's session ended.
pub enum SessionOutcome {
    /// The program ran and exited with this status.
    Exited(i32),
    /// The program did not run.
    Failed {
        /// The status that the session ended with.
        code: i32,
        /// Why the program did not run, in the daemon's words.
        message: String,
    },
    /// A secret is required. The text is the prompt to show.
    Unauthorized(String),
}

/// A [`SessionOutcome`] as a mathematical value.
pub enum SessionOutcomeView {
    Exited(i32),
    Failed { code: i32, message: Seq<char> },
    Unauthorized(Seq<char>),
}

impl View for SessionOutcome {
    type V = SessionOutcomeView;

    open spec fn view(&self) -> SessionOutcomeView {
        match *self {
            SessionOutcome::Exited(code) => SessionOutcomeView::Exited(code),
            SessionOutcome::Failed { code, message } => SessionOutcomeView::Failed {
                code,
                message: message@,
            },
            SessionOutcome::Unauthorized(prompt) => SessionOutcomeView::Unauthorized(prompt@),
        }
    }
}

/// A wait for the end of a session. It holds the daemon's first error, if one came.
pub struct OutcomeWait {
    failure: Option<String>,
}

/// Where a wait for the end of a session stands after one more message.
pub enum OutcomeStep {
    /// The session goes on.
    More(OutcomeWait),
    /// The session ended.
    Done(SessionOutcome),
    /// The wait failed.
    Failed(CoreError),
}

/// An [`OutcomeStep`] as a mathematical value. A wait is the daemon's first error.
pub enum OutcomeStepView {
    More(Option<Seq<char>>),
    Done(SessionOutcomeView),
    Failed(CoreErrorView),
}

impl View for OutcomeWait {
    type V = Option<Seq<char>>;

    closed spec fn view(&self) -> Option<Seq<char>> {
        match self.failure {
            Some(s) => Some(s@),
            None => None,
        }
    }
}

impl View for OutcomeStep {
    type V = OutcomeStepView;

    open spec fn view(&self) -> OutcomeStepView {
        match *self {
            OutcomeStep::More(w) => OutcomeStepView::More(w@),
            OutcomeStep::Done(o) => OutcomeStepView::Done(o@),
            OutcomeStep::Failed(e) => OutcomeStepView::Failed(e@),
        }
    }
}

/// The text of a message, or `default` where its payload is not UTF-8.
pub open spec fn text_or(m: MessageView, default: Seq<char>) -> Seq<char> {
    match m.text() {
        Some(s) => s,
        None => default,
    }
}

/// What one message means to a client that waits for the end of its session. An exit
/// status ends it, as a failure if an error came before; a demand for authentication
/// ends it; the first error is kept; anything else is ignored.
pub open spec fn outcome_message(failure: Option<Seq<char>>, m: MessageView) -> OutcomeStepView {
    match m.field_type {
        FieldType::Exit => match m.number() {
            Some(bits) => OutcomeStepView::Done(
                match failure {
                    Some(message) => SessionOutcomeView::Failed {
                        code: bytes::i32_of_bits(bits),
                        message,
                    },
                    None => SessionOutcomeView::Exited(bytes::i32_of_bits(bits)),
                },
            ),
            None => OutcomeStepView::Failed(
                CoreErrorView::Proto(m.bad("expected 4-byte integer"@)),
            ),
        },
        FieldType::Unauthorized => OutcomeStepView::Done(
            SessionOutcomeView::Unauthorized(text_or(m, "password: "@)),
        ),
        FieldType::Error => OutcomeStepView::More(
            match failure {
                Some(first) => Some(first),
                None => Some(text_or(m, "<malformed error>"@)),
            },
        ),
        _ => OutcomeStepView::More(failure),
    }
}

/// What the next event means to a client that waits for the end of its session.
pub open spec fn outcome_step<F>(
    failure: Option<Seq<char>>,
    incoming: IncomingView<F>,
) -> OutcomeStepView {
    match incoming {
        IncomingView::Message(r) => outcome_message(failure, r.message),
        IncomingView::Closed => OutcomeStepView::Failed(CoreErrorView::DaemonClosed),
        IncomingView::Failed(e) => OutcomeStepView::Failed(CoreErrorView::Transport(e)),
    }
}

/// What a list of events means to a client that waits for the end of its session, up to
/// the first event that ends it.
pub open spec fn outcome_run<F>(
    failure: Option<Seq<char>>,
    events: Seq<IncomingView<F>>,
) -> OutcomeStepView
    decreases events.len(),
{
    if events.len() == 0 {
        OutcomeStepView::More(failure)
    } else {
        match outcome_step(failure, events[0]) {
            OutcomeStepView::More(next) => outcome_run(next, events.drop_first()),
            last => last,
        }
    }
}

impl OutcomeWait {
    /// A wait before any message.
    pub fn start() -> (w: OutcomeWait)
        ensures
            w@ == None::<Seq<char>>,
    {
        OutcomeWait { failure: None }
    }

    /// Takes one more event of the session.
    pub fn step<F>(self, incoming: Incoming<F>) -> (step: OutcomeStep)
        ensures
            step@ == outcome_step(self@, incoming@),
    {
        let received = match incoming {
            Incoming::Message(received) => received,
            Incoming::Closed => return OutcomeStep::Failed(CoreError::DaemonClosed),
            Incoming::Failed(e) => return OutcomeStep::Failed(CoreError::Transport(e)),
        };
        match received.message.field_type() {
            FieldType::Exit => {
                let code: i32 = match received.message.as_i32() {
                    Ok(code) => code,
                    Err(e) => return OutcomeStep::Failed(CoreError::Proto(e)),
                };
                OutcomeStep::Done(
                    match self.failure {
                        Some(message) => SessionOutcome::Failed { code, message },
                        None => SessionOutcome::Exited(code),
                    },
                )
            },
            FieldType::Unauthorized => {
                let prompt = match received.message.as_str() {
                    Ok(s) => s.to_owned(),
                    Err(_) => "password: ".to_owned(),
                };
                OutcomeStep::Done(SessionOutcome::Unauthorized(prompt))
            },
            FieldType::Error => {
                match self.failure {
                    Some(first) => OutcomeStep::More(OutcomeWait { failure: Some(first) }),
                    None => {
                        let text = match received.message.as_str() {
                            Ok(s) => s.to_owned(),
                            Err(_) => "<malformed error>".to_owned(),
                        };
                        OutcomeStep::More(OutcomeWait { failure: Some(text) })
                    },
                }
            },
            // A peer may send what this version does not know.
            _ => OutcomeStep::More(self),
        }
    }
}

/// The result of a wait, as a mathematical value.
pub open spec fn outcome_result(r: Result<SessionOutcome, CoreError>) -> Result<
    SessionOutcomeView,
    CoreErrorView,
> {
    match r {
        Ok(o) => Ok(o@),
        Err(e) => Err(e@),
    }
}

/// The result of a session, given how its configuration was sent and how the wait for
/// its end went. A front-end may answer and hang up before the configuration was sent
/// as a whole, so an outcome counts even if sending failed; without one, a failure to
/// send is the one to tell.
pub fn session_result(
    waited: Result<SessionOutcome, CoreError>,
    sent: Result<(), CoreError>,
) -> (r: Result<SessionOutcome, CoreError>)
    ensures
        outcome_result(r) == match outcome_result(waited) {
            Ok(o) => Ok(o),
            Err(e) => match sent {
                Ok(()) => Err(e),
                Err(s) => Err(s@),
            },
        },
{
    match waited {
        Ok(outcome) => Ok(outcome),
        Err(e) => match sent {
            Ok(()) => Err(e),
            Err(s) => Err(s),
        },
    }
}

/// Whether to forward changes of the terminal's dimensions: where the configuration was
/// sent and gave dimensions.
pub fn forwards_resizes(sent: bool, request: &ClientRequest) -> (b: bool)
    ensures
        b == (sent && request@.winsize is Some),
{
    sent && request.winsize.is_some()
}

/// What a session means to a caller who wants an exit status and nothing else.
pub open spec fn status_of(outcome: SessionOutcomeView) -> Result<i32, CoreErrorView> {
    match outcome {
        SessionOutcomeView::Exited(code) => Ok(code),
        SessionOutcomeView::Failed { code: _, message } => Err(CoreErrorView::Refused(message)),
        SessionOutcomeView::Unauthorized(_) => Err(
            CoreErrorView::Protocol("authentication required"@),
        ),
    }
}

/// The exit status of a session's program. There is none where the program did not run
/// or a secret was required.
pub fn client_status(outcome: SessionOutcome) -> (r: Result<i32, CoreError>)
    ensures
        match r {
            Ok(code) => status_of(outcome@) == Ok::<i32, CoreErrorView>(code),
            Err(e) => status_of(outcome@) == Err::<i32, CoreErrorView>(e@),
        },
{
    match outcome {
        SessionOutcome::Exited(code) => Ok(code),
        SessionOutcome::Failed { code: _, message } => Err(CoreError::Refused(message)),
        SessionOutcome::Unauthorized(_) => Err(CoreError::Protocol("authentication required")),
    }
}

/// What the client sends, message by message: its variables, its arguments, the kind of
/// session, the window size if there is one, its input, output and error output as three
/// descriptors of which the program reads the first and writes the others, and the end.
pub proof fn configurations_mean(request: ClientRequestView, i: int)
    ensures
        ({
            let all = configuration(request, None);
            let (n, k) = (request.env.len() as int, request.args.len() as int);
            let size = if request.winsize is Some {
                1int
            } else {
                0int
            };
            &&& all.len() == n + k + 3 + size
            &&& 0 <= i < n ==> all[i].message == MessageView::of_text(
                FieldType::Env,
                request.env[i],
            )
            &&& 0 <= i < k ==> all[n + i].message == MessageView::of_text(
                FieldType::Arg,
                request.args[i],
            )
            &&& all[n + k].message == MessageView::session_type(request.session_type)
            &&& request.winsize matches Some(dims) ==> all[n + k + 1].message
                == MessageView::winsize(dims)
            &&& all[n + k + 1 + size].message == MessageView::fds(3)
            &&& all[n + k + 1 + size].dirs == seq![FdDir::Read, FdDir::Write, FdDir::Write]
            &&& all[n + k + 2 + size].message == MessageView::end()
            &&& 0 <= i < all.len() && i != n + k + 1 + size ==> all[i].dirs.len() == 0
        }),
{
}

/// What the client makes of an answer, given the first error that it heard of, if any. The
/// program's status ends the session; so does the demand for a secret, whatever was heard
/// before; of the errors the first is kept; other messages make no difference.
pub proof fn answers_mean<F>(
    failure: Option<Seq<char>>,
    m: MessageView,
    code: i32,
    s: Seq<char>,
    fds: Seq<F>,
    e: crate::error::TransportErrorView,
)
    ensures
        outcome_message(None, MessageView::exit(code)) == OutcomeStepView::Done(
            SessionOutcomeView::Exited(code),
        ),
        outcome_message(Some(s), MessageView::exit(code)) == OutcomeStepView::Done(
            SessionOutcomeView::Failed { code, message: s },
        ),
        m.field_type == FieldType::Exit && m.payload.len() != 4 ==> outcome_message(failure, m)
            == OutcomeStepView::Failed(
            CoreErrorView::Proto(
                ProtoErrorView::InvalidPayload {
                    field_type: FieldType::Exit,
                    reason: "expected 4-byte integer"@,
                },
            ),
        ),
        outcome_message(failure, MessageView::of_text(FieldType::Unauthorized, s))
            == OutcomeStepView::Done(SessionOutcomeView::Unauthorized(s)),
        m.field_type == FieldType::Unauthorized && !valid_utf8(m.payload) ==> outcome_message(
            failure,
            m,
        ) == OutcomeStepView::Done(SessionOutcomeView::Unauthorized("password: "@)),
        outcome_message(None, MessageView::of_text(FieldType::Error, s)) == OutcomeStepView::More(
            Some(s),
        ),
        m.field_type == FieldType::Error && !valid_utf8(m.payload) ==> outcome_message(None, m)
            == OutcomeStepView::More(Some("<malformed error>"@)),
        m.field_type == FieldType::Error && failure is Some ==> outcome_message(failure, m)
            == OutcomeStepView::More(failure),
        m.field_type != FieldType::Exit && m.field_type != FieldType::Unauthorized && m.field_type
            != FieldType::Error ==> outcome_message(failure, m) == OutcomeStepView::More(failure),
        outcome_step::<F>(failure, IncomingView::Closed) == OutcomeStepView::Failed(
            CoreErrorView::DaemonClosed,
        ),
        outcome_step::<F>(failure, IncomingView::Failed(e)) == OutcomeStepView::Failed(
            CoreErrorView::Transport(e),
        ),
        outcome_step(
            failure,
            IncomingView::Message(crate::transport::ReceivedView { message: m, fds }),
        ) == outcome_message(failure, m),
{
    exit_roundtrip(code);
    text_roundtrip(FieldType::Unauthorized, s);
    text_roundtrip(FieldType::Error, s);
    payloads_mean(m, "expected 4-byte integer"@);
}

/// A caller that wants a status gets it where the program ran, and an error otherwise.
pub proof fn statuses_come_of_programs_that_ran(code: i32, message: Seq<char>)
    ensures
        status_of(SessionOutcomeView::Exited(code)) == Ok::<i32, CoreErrorView>(code),
        status_of(SessionOutcomeView::Failed { code, message }) == Err::<i32, CoreErrorView>(
            CoreErrorView::Refused(message),
        ),
        status_of(SessionOutcomeView::Unauthorized(message)) == Err::<i32, CoreErrorView>(
            CoreErrorView::Protocol("authentication required"@),
        ),
{
}

/// A session that came to its end counts, whatever became of sending; where it did not, the
/// error in sending is the one to tell, if there was one.
pub proof fn answers_count_more_than_sending(
    outcome: SessionOutcome,
    waiting: CoreError,
    sending: CoreError,
    sent: Result<(), CoreError>,
    ended: Result<SessionOutcome, CoreError>,
    both: Result<SessionOutcome, CoreError>,
    alone: Result<SessionOutcome, CoreError>,
)
    requires
        call_ensures(session_result, (Ok::<SessionOutcome, CoreError>(outcome), sent), ended),
        call_ensures(
            session_result,
            (Err::<SessionOutcome, CoreError>(waiting), Err::<(), CoreError>(sending)),
            both,
        ),
        call_ensures(
            session_result,
            (Err::<SessionOutcome, CoreError>(waiting), Ok::<(), CoreError>(())),
            alone,
        ),
    ensures
        ended matches Ok(o) && o@ == outcome@,
        both matches Err(e) && e@ == sending@,
        alone matches Err(e) && e@ == waiting@,
{
    assert(outcome_result(Ok::<SessionOutcome, CoreError>(outcome)) is Ok);
    assert(outcome_result(Err::<SessionOutcome, CoreError>(waiting)) is Err);
}

/// New window sizes are sent exactly in a session that sent one with its request, once the
/// request is out.
pub proof fn window_sizes_follow_the_first(sent: bool, request: ClientRequest, b: bool)
    requires
        call_ensures(forwards_resizes, (sent, &request), b),
    ensures
        b <==> sent && request.winsize is Some,
{
    assert(request@.winsize is Some <==> request.winsize is Some);
}

/// Requests, messages and outcomes are shown as they are.
pub proof fn outcomes_are_shown(
    r: ClientRequest,
    list: Seq<Outgoing>,
    i: int,
    code: i32,
    s: String,
    w: OutcomeWait,
    o: SessionOutcome,
    e: CoreError,
)
    ensures
        r@.args == text::texts(r.args@),
        r@.env == text::texts(r.env@),
        r@.session_type == r.session_type,
        r.winsize is None <==> r@.winsize is None,
        r.winsize matches Some(dims) ==> r@.winsize == Some(dims@),
        outgoing_views(list).len() == list.len(),
        0 <= i < list.len() ==> outgoing_views(list)[i].message == list[i].message@
            && outgoing_views(list)[i].dirs == list[i].dirs@,
        SessionOutcome::Exited(code)@ == SessionOutcomeView::Exited(code),
        (SessionOutcome::Failed { code, message: s })@ == (SessionOutcomeView::Failed {
            code,
            message: s@,
        }),
        SessionOutcome::Unauthorized(s)@ == SessionOutcomeView::Unauthorized(s@),
        OutcomeStep::More(w)@ == OutcomeStepView::More(w@),
        OutcomeStep::Done(o)@ == OutcomeStepView::Done(o@),
        OutcomeStep::Failed(e)@ == OutcomeStepView::Failed(e@),
        outcome_result(Ok::<SessionOutcome, CoreError>(o)) == Ok::<_, CoreErrorView>(o@),
        outcome_result(Err::<SessionOutcome, CoreError>(e)) == Err::<SessionOutcomeView, _>(e@),
{
}

} // verus!
