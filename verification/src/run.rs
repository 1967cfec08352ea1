//! How the daemon runs a request that is complete.

use crate::daemon::{RequestView, SessionRequest};
use crate::exit;
use crate::exit::exit_code;
use crate::proto::laws::{winsize_is_canonical, winsize_roundtrip};
use crate::proto::{FieldType, Message, MessageView, SessionType};
use crate::text;
use crate::text::{clone_texts_from, split_once};
use crate::transport::{Incoming, IncomingView, ReceivedView};
use vstd::prelude::*;

verus! {

/// The session type of a session that was not forced to be of one: interactive if both
/// standard input and standard output are terminals.
pub open spec fn session_type_by_terminal(stdin_tty: bool, stdout_tty: bool) -> SessionType {
    if stdin_tty && stdout_tty {
        SessionType::Interactive
    } else {
        SessionType::NonInteractive
    }
}

/// The session type of a session that was not forced to be of one.
pub fn determine_session_type(stdin_tty: bool, stdout_tty: bool) -> (t: SessionType)
    ensures
        t == session_type_by_terminal(stdin_tty, stdout_tty),
{
    if stdin_tty && stdout_tty {
        SessionType::Interactive
    } else {
        SessionType::NonInteractive
    }
}

/// How a program is started.
pub struct ExecPlan {
    /// The program.
    pub program: String,
    /// Its arguments.
    pub args: Vec<String>,
    /// Its whole environment, in the order in which the variables are set. A variable
    /// that is set twice keeps the later value.
    pub env: Vec<(String, String)>,
    /// Whether it runs on a pseudo-terminal.
    pub interactive: bool,
}

/// The mathematical values of a list of variables.
pub open spec fn pair_texts(list: Seq<(String, String)>) -> Seq<(Seq<char>, Seq<char>)> {
    list.map_values(|p: (String, String)| (p.0@, p.1@))
}

/// The variables that environment entries set: an entry `KEY=VALUE` sets `KEY`, where
/// the key ends at the first equals sign; an entry without one sets nothing.
pub open spec fn env_pairs(entries: Seq<Seq<char>>) -> Seq<(Seq<char>, Seq<char>)>
    decreases entries.len(),
{
    if entries.len() == 0 {
        Seq::empty()
    } else {
        let before = env_pairs(entries.drop_last());
        match text::cut(entries.last(), '=') {
            Some(pair) => before.push(pair),
            None => before,
        }
    }
}

/// The variables that environment entries set.
pub fn environment(entries: &Vec<String>) -> (out: Vec<(String, String)>)
    ensures
        pair_texts(out@) == env_pairs(text::texts(entries@)),
{
    let ghost all = text::texts(entries@);
    let mut out: Vec<(String, String)> = Vec::new();
    let mut i: usize = 0;
    assert(all.take(0) =~= Seq::empty());
    assert(pair_texts(out@) =~= Seq::empty());
    while i < entries.len()
        invariant
            all == text::texts(entries@),
            i <= entries@.len(),
            pair_texts(out@) == env_pairs(all.take(i as int)),
        decreases entries@.len() - i,
    {
        assert(all.take(i + 1).drop_last() =~= all.take(i as int));
        assert(all.take(i + 1).last() == entries@[i as int]@);
        let ghost before = out@;
        match split_once(entries[i].as_str(), '=') {
            Some((key, value)) => {
                out.push((key.to_owned(), value.to_owned()));
                assert(pair_texts(out@) =~= pair_texts(before).push((key@, value@)));
            },
            None => {},
        }
        i = i + 1;
    }
    assert(all.take(i as int) =~= all);
    out
}

impl<F> RequestView<F> {
    /// Whether the program runs on a pseudo-terminal, where `stdin_tty` and `stdout_tty`
    /// tell whether the delegated input and output are terminals: the session type says
    /// so, or leaves it to the terminals.
    pub open spec fn interactive(self, stdin_tty: bool, stdout_tty: bool) -> bool {
        match self.session_type {
            SessionType::Auto => session_type_by_terminal(stdin_tty, stdout_tty)
                == SessionType::Interactive,
            t => t == SessionType::Interactive,
        }
    }
}

impl<F> SessionRequest<F> {
    /// How the program is started. `stdin_tty` and `stdout_tty` tell whether the
    /// delegated input and output are terminals.
    pub fn exec_plan(&self, stdin_tty: bool, stdout_tty: bool) -> (plan: ExecPlan)
        requires
            self@.argv.len() > 0,
        ensures
            plan.program@ == self@.argv[0],
            text::texts(plan.args@) == self@.argv.skip(1),
            pair_texts(plan.env@) == env_pairs(self@.envp),
            plan.interactive == self@.interactive(stdin_tty, stdout_tty),
    {
        let session_type = match self.session_type {
            SessionType::Auto => determine_session_type(stdin_tty, stdout_tty),
            t => t,
        };
        ExecPlan {
            program: self.argv[0].clone(),
            args: clone_texts_from(&self.argv, 1),
            env: environment(&self.envp),
            interactive: session_type == SessionType::Interactive,
        }
    }
}

/// Where an interactive session stands.
#[derive(Clone, Copy, PartialEq, Eq, Debug, Structural)]
pub enum Interactive {
    /// The program runs and the client is there.
    Running,
    /// The client is gone, and the program was told to end.
    Ending,
    /// The program ended with this status, and its last output is on the way to the client.
    Draining(i32),
    /// The end of the program was reported.
    Over,
}

/// What happens during an interactive session.
pub enum InteractiveEvent<F> {
    /// The program ended, with an exit code or by a signal.
    Exited {
        /// The exit code, if it exited.
        code: Option<i32>,
        /// The signal, if one killed it.
        signal: Option<i32>,
    },
    /// The wait for the client's next message ended.
    Client(Incoming<F>),
    /// The bridge stopped, and all output of the program went to the client.
    Drained,
}

/// What to do in an interactive session.
pub enum InteractiveAction {
    /// Wait for the next event.
    Wait,
    /// Give the pseudo-terminal new dimensions, then wait for the next event.
    Resize([u16; 4]),
    /// End the program, then wait for it.
    Kill,
    /// Let the bridge carry the rest of the output and stop.
    Drain,
    /// Send this message to the client. The session is over.
    Report(Message),
}

/// An [`InteractiveEvent`] as a mathematical value.
pub enum InteractiveEventView<F> {
    Exited { code: Option<i32>, signal: Option<i32> },
    Client(IncomingView<F>),
    Drained,
}

/// An [`InteractiveAction`] as a mathematical value.
pub enum InteractiveActionView {
    Wait,
    Resize(Seq<u16>),
    Kill,
    Drain,
    Report(MessageView),
}

impl<F> View for InteractiveEvent<F> {
    type V = InteractiveEventView<F>;

    open spec fn view(&self) -> InteractiveEventView<F> {
        match *self {
            InteractiveEvent::Exited { code, signal } => InteractiveEventView::Exited {
                code,
                signal,
            },
            InteractiveEvent::Client(i) => InteractiveEventView::Client(i@),
            InteractiveEvent::Drained => InteractiveEventView::Drained,
        }
    }
}

impl View for InteractiveAction {
    type V = InteractiveActionView;

    open spec fn view(&self) -> InteractiveActionView {
        match *self {
            InteractiveAction::Wait => InteractiveActionView::Wait,
            InteractiveAction::Resize(dims) => InteractiveActionView::Resize(dims@),
            InteractiveAction::Kill => InteractiveActionView::Kill,
            InteractiveAction::Drain => InteractiveActionView::Drain,
            InteractiveAction::Report(m) => InteractiveActionView::Report(m@),
        }
    }
}

/// What an event leads to in an interactive session. When the program ends its output is
/// carried to the client first, and then its status is reported, whether the client is
/// there or not; a client that hangs up or cannot be read any more ends the program; a
/// well-formed window size is applied; anything else is ignored.
pub open spec fn interactive_step<F>(state: Interactive, event: InteractiveEventView<F>) -> (
    Interactive,
    InteractiveActionView,
) {
    match (state, event) {
        (
            Interactive::Running | Interactive::Ending,
            InteractiveEventView::Exited { code, signal },
        ) => (
            Interactive::Draining(exit::exit_status(code, signal) as i32),
            InteractiveActionView::Drain,
        ),
        (Interactive::Draining(status), InteractiveEventView::Drained) => (
            Interactive::Over,
            InteractiveActionView::Report(MessageView::exit(status)),
        ),
        (Interactive::Running, InteractiveEventView::Client(incoming)) => match incoming {
            IncomingView::Message(r) => if r.message.field_type == FieldType::Winsize
                && r.message.dims() is Some {
                (state, InteractiveActionView::Resize(r.message.dims().unwrap()))
            } else {
                (state, InteractiveActionView::Wait)
            },
            _ => (Interactive::Ending, InteractiveActionView::Kill),
        },
        _ => (state, InteractiveActionView::Wait),
    }
}

impl Interactive {
    /// Takes one event of an interactive session, and tells what to do.
    pub fn step<F>(self, event: InteractiveEvent<F>) -> (r: (Interactive, InteractiveAction))
        requires
            event@ matches InteractiveEventView::Exited { code, signal } ==> i32::MIN
                <= exit::exit_status(code, signal) <= i32::MAX,
        ensures
            (r.0, r.1@) == interactive_step(self, event@),
    {
        match event {
            InteractiveEvent::Exited { code, signal } => match self {
                Interactive::Running | Interactive::Ending => (
                    Interactive::Draining(exit_code(code, signal)),
                    InteractiveAction::Drain,
                ),
                _ => (self, InteractiveAction::Wait),
            },
            InteractiveEvent::Drained => match self {
                Interactive::Draining(status) => (
                    Interactive::Over,
                    InteractiveAction::Report(Message::exit(status)),
                ),
                _ => (self, InteractiveAction::Wait),
            },
            InteractiveEvent::Client(incoming) => {
                if self != Interactive::Running {
                    return (self, InteractiveAction::Wait);
                }
                match incoming {
                    Incoming::Message(received) => {
                        if received.message.field_type() == FieldType::Winsize {
                            match received.message.as_winsize() {
                                Ok(dims) => (self, InteractiveAction::Resize(dims)),
                                Err(_) => (self, InteractiveAction::Wait),
                            }
                        } else {
                            (self, InteractiveAction::Wait)
                        }
                    },
                    _ => (Interactive::Ending, InteractiveAction::Kill),
                }
            },
        }
    }
}

/// Where an interactive session stands after events, and what was to be done on the way.
pub open spec fn interactive_run<F>(events: Seq<InteractiveEventView<F>>) -> (
    Interactive,
    Seq<InteractiveActionView>,
)
    decreases events.len(),
{
    if events.len() == 0 {
        (Interactive::Running, Seq::empty())
    } else {
        let (state, actions) = interactive_run(events.drop_last());
        let (next, action) = interactive_step(state, events.last());
        (next, actions.push(action))
    }
}

/// How many of the things to do are reports.
pub open spec fn reports(actions: Seq<InteractiveActionView>) -> nat
    decreases actions.len(),
{
    if actions.len() == 0 {
        0
    } else {
        reports(actions.drop_last()) + if actions.last() is Report {
            1nat
        } else {
            0nat
        }
    }
}

/// What a session that is draining or over has behind it.
proof fn drained_session_was_drained<F>(events: Seq<InteractiveEventView<F>>)
    ensures
        ({
            let (state, actions) = interactive_run(events);
            &&& actions.len() == events.len()
            &&& state is Draining || state is Over ==> exists|k: int|
                0 <= k < actions.len() && #[trigger] actions[k] is Drain
            &&& reports(actions) == if state is Over {
                1nat
            } else {
                0nat
            }
        }),
    decreases events.len(),
{
    if events.len() > 0 {
        drained_session_was_drained(events.drop_last());
        let (before, earlier) = interactive_run(events.drop_last());
        let (state, actions) = interactive_run(events);
        assert(actions.drop_last() =~= earlier);
        if before is Draining || before is Over {
            let k = choose|k: int| 0 <= k < earlier.len() && #[trigger] earlier[k] is Drain;
            assert(actions[k] == earlier[k]);
        }
        if actions.last() is Drain {
            assert(actions[actions.len() - 1] is Drain);
        }
    }
}

/// The status comes after the output, and comes once: whatever happens in a session, there
/// is at most one report, and before it the bridge was let to carry the rest of the output.
pub proof fn output_comes_before_the_status<F>(events: Seq<InteractiveEventView<F>>, i: int)
    requires
        0 <= i < events.len(),
        interactive_run(events.take(i + 1)).1.last() is Report,
    ensures
        events[i] is Drained,
        exists|k: int|
            0 <= k < i && #[trigger] interactive_run(events.take(i + 1)).1[k] is Drain,
        reports(interactive_run(events).1) <= 1,
{
    let now = events.take(i + 1);
    drained_session_was_drained(now.drop_last());
    drained_session_was_drained(events);
    let (before, earlier) = interactive_run(now.drop_last());
    let k = choose|k: int| 0 <= k < earlier.len() && #[trigger] earlier[k] is Drain;
    assert(interactive_run(now).1[k] == earlier[k]);
}

/// A change of the terminal's dimensions reaches the program's terminal.
pub proof fn resize_is_applied<F>(dims: Seq<u16>, fds: Seq<F>)
    requires
        dims.len() == 4,
    ensures
        interactive_step(
            Interactive::Running,
            InteractiveEventView::Client(
                IncomingView::Message(
                    ReceivedView { message: MessageView::winsize(dims), fds },
                ),
            ),
        ) == (Interactive::Running, InteractiveActionView::Resize(dims)),
{
    winsize_roundtrip(dims);
}

/// A client that is gone is gone: the program is told to end once, and then nothing but
/// its end matters.
pub proof fn gone_client_is_ignored<F>(incoming: IncomingView<F>)
    ensures
        interactive_step(Interactive::Ending, InteractiveEventView::Client(incoming)) == (
            Interactive::Ending,
            InteractiveActionView::Wait,
        ),
{
}

/// Where event `j` is the first of a program's end.
pub open spec fn first_exit<F>(events: Seq<InteractiveEventView<F>>, j: int) -> bool {
    &&& 0 <= j < events.len()
    &&& events[j] is Exited
    &&& forall|k: int| 0 <= k < j ==> !(#[trigger] events[k] is Exited)
}

/// The status that stands for the end of a program, where it fits into 32 bits.
pub open spec fn tells_end(m: MessageView, code: Option<i32>, signal: Option<i32>) -> bool {
    &&& code matches Some(c) ==> m == MessageView::exit(c)
    &&& code is None && signal is None ==> m == MessageView::exit(1)
    &&& code is None ==> (signal matches Some(s) ==> (128 + s <= 0x7fff_ffff ==> m
        == MessageView::exit((128 + s) as i32)))
}

/// What a session has done is not changed by what happens later.
proof fn done_is_done<F>(events: Seq<InteractiveEventView<F>>, n: int)
    requires
        0 <= n <= events.len(),
    ensures
        interactive_run(events).1.len() == events.len(),
        interactive_run(events).1.take(n) == interactive_run(events.take(n)).1,
    decreases events.len(),
{
    if n == events.len() {
        assert(events.take(n) =~= events);
        if events.len() > 0 {
            done_is_done(events.drop_last(), n - 1);
        }
        assert(interactive_run(events).1.take(n) =~= interactive_run(events).1);
    } else {
        done_is_done(events.drop_last(), n);
        assert(events.drop_last().take(n) =~= events.take(n));
        assert(interactive_run(events).1.take(n) =~= interactive_run(events.drop_last()).1.take(n));
    }
}

/// A session that drains keeps the status of the first end.
proof fn status_is_of_the_first_exit<F>(events: Seq<InteractiveEventView<F>>)
    ensures
        ({
            let state = interactive_run(events).0;
            &&& state is Running || state is Ending ==> forall|k: int|
                0 <= k < events.len() ==> !(#[trigger] events[k] is Exited)
            &&& state matches Interactive::Draining(status) ==> exists|j: int|
                #[trigger] first_exit(events, j) && (
                events[j] matches InteractiveEventView::Exited { code, signal } && tells_end(
                    MessageView::exit(status),
                    code,
                    signal,
                ))
        }),
    decreases events.len(),
{
    if events.len() > 0 {
        let before = events.drop_last();
        let last = events.len() - 1;
        status_is_of_the_first_exit(before);
        let (was, now) = (interactive_run(before).0, interactive_run(events).0);
        if now is Running || now is Ending {
            assert forall|k: int| 0 <= k < events.len() implies !(#[trigger] events[k] is Exited) by {
                if k < last {
                    assert(before[k] == events[k]);
                }
            }
        }
        if now is Draining {
            if was is Draining {
                let j = choose|j: int| #[trigger]
                    first_exit(before, j) && (
                    before[j] matches InteractiveEventView::Exited { code, signal } && tells_end(
                        MessageView::exit(was->Draining_0),
                        code,
                        signal,
                    ));
                assert(events[j] == before[j]);
                assert forall|k: int| 0 <= k < j implies !(#[trigger] events[k] is Exited) by {
                    assert(before[k] == events[k]);
                }
                assert(first_exit(events, j));
            } else {
                assert forall|k: int| 0 <= k < last implies !(#[trigger] events[k] is Exited) by {
                    assert(before[k] == events[k]);
                }
                assert(first_exit(events, last));
            }
        }
    }
}

/// Whatever happens in an interactive session, a status that is reported is that of the
/// first end of the program: its code if there is one, else 128 more than the signal, else
/// 1. That the client went away before makes no difference.
pub proof fn reported_status_is_of_the_first_exit<F>(events: Seq<InteractiveEventView<F>>, i: int)
    requires
        0 <= i < events.len(),
        interactive_run(events).1[i] is Report,
    ensures
        exists|j: int|
            0 <= j < i && #[trigger] first_exit(events, j) && (
            events[j] matches InteractiveEventView::Exited { code, signal } && tells_end(
                interactive_run(events).1[i]->Report_0,
                code,
                signal,
            )),
{
    let upto = events.take(i + 1);
    let before = upto.drop_last();
    done_is_done(events, i + 1);
    assert(interactive_run(events).1.take(i + 1)[i] == interactive_run(events).1[i]);
    done_is_done(upto, i);
    status_is_of_the_first_exit(before);
    let status = interactive_run(before).0->Draining_0;
    let j = choose|j: int| #[trigger]
        first_exit(before, j) && (
        before[j] matches InteractiveEventView::Exited { code, signal } && tells_end(
            MessageView::exit(status),
            code,
            signal,
        ));
    assert(before[j] == events[j]);
    assert forall|k: int| 0 <= k < j implies !(#[trigger] events[k] is Exited) by {
        assert(before[k] == events[k]);
    }
    assert(first_exit(events, j));
}

/// The program's end is always reported: once it has ended, and nothing but what the client
/// sends has come since, the end of the output gives the report.
pub proof fn every_end_is_reported<F>(
    events: Seq<InteractiveEventView<F>>,
    code: Option<i32>,
    signal: Option<i32>,
    later: Seq<InteractiveEventView<F>>,
)
    requires
        forall|k: int| 0 <= k < events.len() ==> !(#[trigger] events[k] is Exited),
        forall|k: int| 0 <= k < later.len() ==> !(#[trigger] later[k] is Drained),
    ensures
        ({
            let ended = events.push(InteractiveEventView::Exited { code, signal });
            &&& interactive_run(ended).1.last() is Drain
            &&& interactive_run((ended + later).push(InteractiveEventView::Drained)).1.last()
                is Report
        }),
{
    let ended = events.push(InteractiveEventView::Exited { code, signal });
    running_before_the_end(events);
    assert(ended.drop_last() =~= events);
    draining_goes_on(ended, later);
    let all = (ended + later).push(InteractiveEventView::Drained);
    assert(all.drop_last() =~= ended + later);
}

/// A session goes on until the program ends.
proof fn running_before_the_end<F>(events: Seq<InteractiveEventView<F>>)
    requires
        forall|k: int| 0 <= k < events.len() ==> !(#[trigger] events[k] is Exited),
    ensures
        interactive_run(events).0 is Running || interactive_run(events).0 is Ending,
    decreases events.len(),
{
    if events.len() > 0 {
        let before = events.drop_last();
        assert forall|k: int| 0 <= k < before.len() implies !(#[trigger] before[k] is Exited) by {
            assert(before[k] == events[k]);
        }
        running_before_the_end(before);
        assert(!(events[events.len() - 1] is Exited));
    }
}

/// A session that drains does so until the output has come to its end.
proof fn draining_goes_on<F>(
    ended: Seq<InteractiveEventView<F>>,
    later: Seq<InteractiveEventView<F>>,
)
    requires
        interactive_run(ended).0 is Draining,
        forall|k: int| 0 <= k < later.len() ==> !(#[trigger] later[k] is Drained),
    ensures
        interactive_run(ended + later).0 == interactive_run(ended).0,
    decreases later.len(),
{
    if later.len() == 0 {
        assert(ended + later =~= ended);
    } else {
        let before = later.drop_last();
        assert forall|k: int| 0 <= k < before.len() implies !(#[trigger] before[k] is Drained) by {
            assert(before[k] == later[k]);
        }
        draining_goes_on(ended, before);
        assert((ended + later).drop_last() =~= ended + before);
        assert((ended + later).last() == later[later.len() - 1]);
    }
}

/// A client that goes away ends the program, and nothing else does: the program is killed
/// exactly at a channel that closed or failed while the session was running.
pub proof fn only_a_gone_client_kills<F>(state: Interactive, event: InteractiveEventView<F>)
    ensures
        interactive_step(state, event).1 is Kill <==> state is Running && (
        event matches InteractiveEventView::Client(i) && !(i is Message)),
        interactive_step(state, event).1 is Kill ==> interactive_step(state, event).0 is Ending,
        interactive_step(state, event).1 is Drain <==> (state is Running || state is Ending)
            && event is Exited,
        interactive_step(state, event).1 is Report <==> state is Draining && event is Drained,
        interactive_step(state, event).1 is Report ==> interactive_step(state, event).0 is Over,
        interactive_step(state, event).1 is Wait || interactive_step(state, event).1 is Resize
            ==> interactive_step(state, event).0 == state,
{
}

/// The terminal is resized exactly when a running session's client sends a window size, and
/// to that size.
pub proof fn only_window_sizes_resize<F>(
    state: Interactive,
    event: InteractiveEventView<F>,
    dims: Seq<u16>,
)
    ensures
        interactive_step(state, event).1 == InteractiveActionView::Resize(dims) <==> state
            is Running && (event matches InteractiveEventView::Client(i)
            && i matches IncomingView::Message(r) && r.message.field_type == FieldType::Winsize
            && dims.len() == 4 && r.message.payload == MessageView::winsize(dims).payload),
{
    if interactive_step(state, event).1 is Resize {
        let m = event->Client_0->Message_0.message;
        winsize_is_canonical(m);
    }
    if dims.len() == 4 {
        winsize_roundtrip(dims);
    }
}

/// Variables are set in the order in which they come: those of a list are those of its
/// parts, one behind the other. An entry gives the name in front of the first `=` the value
/// behind it, and an entry without `=` gives none.
pub proof fn variables_come_in_order(
    a: Seq<Seq<char>>,
    b: Seq<Seq<char>>,
    name: Seq<char>,
    value: Seq<char>,
)
    requires
        !name.contains('='),
    ensures
        env_pairs(a + b) == env_pairs(a) + env_pairs(b),
        env_pairs(seq![name + seq!['='] + value]) == seq![(name, value)],
        env_pairs(seq![name]) == Seq::<(Seq<char>, Seq<char>)>::empty(),
    decreases b.len(),
{
    reveal_with_fuel(env_pairs, 2);
    let one = seq![name + seq!['='] + value];
    text::cut_means(one[0], '=', name, value);
    assert(one.drop_last() =~= Seq::empty());
    text::cut_means(name, '=', name, value);
    assert(seq![name].drop_last() =~= Seq::empty());
    if b.len() == 0 {
        assert(a + b =~= a);
    } else {
        variables_come_in_order(a, b.drop_last(), name, value);
        assert((a + b).drop_last() =~= a + b.drop_last());
    }
    assert(env_pairs(a + b) =~= env_pairs(a) + env_pairs(b));
}

/// A session is interactive if the client asked for it; where the client left it open, if
/// both its input and its output are terminals.
pub proof fn terminals_decide_where_the_client_does_not<F>(
    r: RequestView<F>,
    stdin_tty: bool,
    stdout_tty: bool,
)
    ensures
        r.session_type == SessionType::Interactive ==> r.interactive(stdin_tty, stdout_tty),
        r.session_type == SessionType::NonInteractive ==> !r.interactive(stdin_tty, stdout_tty),
        r.session_type == SessionType::Auto ==> (r.interactive(stdin_tty, stdout_tty) <==> stdin_tty
            && stdout_tty),
        session_type_by_terminal(stdin_tty, stdout_tty) == SessionType::Interactive <==> stdin_tty
            && stdout_tty,
        session_type_by_terminal(stdin_tty, stdout_tty) != SessionType::Auto,
{
}

/// What runs is what was asked for: the first word is the program and the others are its
/// arguments, all and in order.
pub proof fn plans_run_the_request<F>(
    r: SessionRequest<F>,
    stdin_tty: bool,
    stdout_tty: bool,
    plan: ExecPlan,
)
    requires
        r@.argv.len() > 0,
        call_ensures(SessionRequest::<F>::exec_plan, (&r, stdin_tty, stdout_tty), plan),
    ensures
        seq![plan.program@] + text::texts(plan.args@) == r@.argv,
        pair_texts(plan.env@) == env_pairs(r@.envp),
        r.session_type == SessionType::Interactive ==> plan.interactive,
        r.session_type == SessionType::NonInteractive ==> !plan.interactive,
        r.session_type == SessionType::Auto ==> (plan.interactive <==> stdin_tty && stdout_tty),
{
    assert(seq![plan.program@] + text::texts(plan.args@) =~= r@.argv);
    assert(r@.session_type == r.session_type);
}

/// Events, actions and variables are shown as they are.
pub proof fn events_are_shown<F>(
    code: Option<i32>,
    signal: Option<i32>,
    i: Incoming<F>,
    dims: [u16; 4],
    m: Message,
    list: Seq<(String, String)>,
    k: int,
)
    ensures
        (InteractiveEvent::<F>::Exited { code, signal })@ == (InteractiveEventView::<F>::Exited {
            code,
            signal,
        }),
        InteractiveEvent::Client(i)@ == InteractiveEventView::Client(i@),
        InteractiveEvent::<F>::Drained@ == InteractiveEventView::<F>::Drained,
        InteractiveAction::Wait@ == InteractiveActionView::Wait,
        InteractiveAction::Resize(dims)@ == InteractiveActionView::Resize(dims@),
        InteractiveAction::Kill@ == InteractiveActionView::Kill,
        InteractiveAction::Drain@ == InteractiveActionView::Drain,
        InteractiveAction::Report(m)@ == InteractiveActionView::Report(m@),
        pair_texts(list).len() == list.len(),
        0 <= k < list.len() ==> pair_texts(list)[k] == (list[k].0@, list[k].1@),
{
}

} // verus!
