//! What holds of sessions as a whole: what the daemon makes of what a client says, and
//! what a client makes of what the daemon answers.

use crate::client;
use crate::client::{ClientRequestView, OutcomeStepView, OutgoingView, SessionOutcomeView};
use crate::daemon::{ConfigStepView, ConfigurationView, DaemonConfigView, RequestView};
use crate::error::CoreErrorView;
use crate::exit;
use crate::invoke;
use crate::options;
use crate::options::{Flag, ItemView, Tool};
use crate::proto::laws::{
    exit_roundtrip, session_type_roundtrip, text_roundtrip, winsize_roundtrip,
};
use crate::proto::{FieldType, MessageView, SessionType};
use crate::transport::{IncomingView, ReceivedView};
use vstd::prelude::*;

verus! {

/// What arrives where messages are sent one after the other, and `fds` is what arrives
/// for the delegated descriptors.
pub open spec fn delivered<F>(list: Seq<OutgoingView>, fds: Seq<F>) -> Seq<IncomingView<F>> {
    list.map_values(|o: OutgoingView| arrival(o, fds))
}

/// What arrives for one message.
pub open spec fn arrival<F>(o: OutgoingView, fds: Seq<F>) -> IncomingView<F> {
    IncomingView::Message(
        ReceivedView {
            message: o.message,
            fds: if o.dirs.len() == 0 {
                Seq::empty()
            } else {
                fds
            },
        },
    )
}

/// What arrives where messages without descriptors are sent one after the other.
pub open spec fn arrivals<F>(list: Seq<MessageView>) -> Seq<IncomingView<F>> {
    list.map_values(
        |m: MessageView| IncomingView::Message(ReceivedView { message: m, fds: Seq::<F>::empty() }),
    )
}

/// The request that the daemon owes a client under its policy: its fixed arguments and
/// environment first, then the client's unless they are ruled out; a shell where that
/// leaves no program; and everything else as the client said it.
pub open spec fn granted<F>(
    config: DaemonConfigView,
    request: ClientRequestView,
    fds: Seq<F>,
) -> RequestView<F> {
    let argv = if config.no_client_argv {
        config.fixed_args
    } else {
        config.fixed_args + request.args
    };
    RequestView {
        argv: if argv.len() == 0 {
            seq!["sh"@]
        } else {
            argv
        },
        envp: if config.no_client_env {
            config.fixed_env
        } else {
            config.fixed_env + request.env
        },
        session_type: request.session_type,
        stdio: fds,
        winsize: match request.winsize {
            Some(dims) => dims,
            None => seq![24u16, 80u16, 0u16, 0u16],
        },
    }
}

/// Events after events: the configuration goes on where it stood.
proof fn run_concat<F>(
    c: ConfigurationView<F>,
    config: DaemonConfigView,
    a: Seq<IncomingView<F>>,
    b: Seq<IncomingView<F>>,
)
    ensures
        c.run(config, a + b) == match c.run(config, a) {
            ConfigStepView::More(next) => next.run(config, b),
            last => last,
        },
    decreases a.len(),
{
    if a.len() == 0 {
        assert(a + b =~= b);
    } else {
        assert((a + b).drop_first() =~= a.drop_first() + b);
        match c.step(config, a[0]) {
            ConfigStepView::More(next) => run_concat(next, config, a.drop_first(), b),
            _ => {},
        }
    }
}

/// One more event.
proof fn run_one<F>(c: ConfigurationView<F>, config: DaemonConfigView, event: IncomingView<F>)
    ensures
        c.run(config, seq![event]) == c.step(config, event),
{
    reveal_with_fuel(ConfigurationView::run, 2);
    assert(seq![event].drop_first() =~= Seq::empty());
}

/// The client's arguments are appended, or ignored where the policy says so.
proof fn run_args<F>(
    c: ConfigurationView<F>,
    config: DaemonConfigView,
    list: Seq<Seq<char>>,
    fds: Seq<F>,
)
    ensures
        c.run(config, delivered(client::text_messages(FieldType::Arg, list), fds))
            == ConfigStepView::More(
            ConfigurationView {
                argv: if config.no_client_argv {
                    c.argv
                } else {
                    c.argv + list
                },
                ..c
            },
        ),
    decreases list.len(),
{
    let events = delivered(client::text_messages(FieldType::Arg, list), fds);
    if list.len() == 0 {
        assert(c.argv + list =~= c.argv);
    } else {
        let rest = list.drop_first();
        text_roundtrip(FieldType::Arg, list[0]);
        assert(events.drop_first() =~= delivered(
            client::text_messages(FieldType::Arg, rest),
            fds,
        ));
        assert(events[0] == arrival(
            client::plain(MessageView::of_text(FieldType::Arg, list[0])),
            fds,
        ));
        if config.no_client_argv {
            run_args(c, config, rest, fds);
        } else {
            let next = ConfigurationView { argv: c.argv.push(list[0]), ..c };
            run_args(next, config, rest, fds);
            assert(next.argv + rest =~= c.argv + list);
        }
    }
}

/// The client's environment entries are appended, or ignored where the policy says so.
proof fn run_env<F>(
    c: ConfigurationView<F>,
    config: DaemonConfigView,
    list: Seq<Seq<char>>,
    fds: Seq<F>,
)
    ensures
        c.run(config, delivered(client::text_messages(FieldType::Env, list), fds))
            == ConfigStepView::More(
            ConfigurationView {
                envp: if config.no_client_env {
                    c.envp
                } else {
                    c.envp + list
                },
                ..c
            },
        ),
    decreases list.len(),
{
    let events = delivered(client::text_messages(FieldType::Env, list), fds);
    if list.len() == 0 {
        assert(c.envp + list =~= c.envp);
    } else {
        let rest = list.drop_first();
        text_roundtrip(FieldType::Env, list[0]);
        assert(events.drop_first() =~= delivered(
            client::text_messages(FieldType::Env, rest),
            fds,
        ));
        assert(events[0] == arrival(
            client::plain(MessageView::of_text(FieldType::Env, list[0])),
            fds,
        ));
        if config.no_client_env {
            run_env(c, config, rest, fds);
        } else {
            let next = ConfigurationView { envp: c.envp.push(list[0]), ..c };
            run_env(next, config, rest, fds);
            assert(next.envp + rest =~= c.envp + list);
        }
    }
}

/// What a client asks for is what the daemon runs, as far as its policy allows: the
/// messages of a client's configuration complete a request, with or without a secret,
/// and it is the one that the daemon owes.
pub proof fn configuration_is_granted<F>(
    config: DaemonConfigView,
    request: ClientRequestView,
    secret: Option<Seq<char>>,
    fds: Seq<F>,
)
    requires
        request.winsize matches Some(dims) ==> dims.len() == 4,
        fds.len() == 3,
    ensures
        ConfigurationView::start(config).run(
            config,
            delivered(client::configuration(request, secret), fds),
        ) == ConfigStepView::Complete(granted(config, request, fds)),
{
    let c0 = ConfigurationView::<F>::start(config);
    let m_secret = client::secret_messages(secret);
    let m_env = client::text_messages(FieldType::Env, request.env);
    let m_args = client::text_messages(FieldType::Arg, request.args);
    let m_type = seq![client::plain(MessageView::session_type(request.session_type))];
    let m_size = client::winsize_messages(request.winsize);
    let m_stdio = seq![client::stdio_message()];
    let m_end = seq![client::plain(MessageView::end())];
    let e_secret = delivered(m_secret, fds);
    let e_env = delivered(m_env, fds);
    let e_args = delivered(m_args, fds);
    let e_type = delivered(m_type, fds);
    let e_size = delivered(m_size, fds);
    let e_stdio = delivered(m_stdio, fds);
    let e_end = delivered(m_end, fds);
    let t5 = e_stdio + e_end;
    let t4 = e_size + t5;
    let t3 = e_type + t4;
    let t2 = e_args + t3;
    let t1 = e_env + t2;
    let all = e_secret + t1;
    assert(delivered(client::configuration(request, secret), fds) =~= all);
    // The secret means nothing to the daemon.
    run_concat(c0, config, e_secret, t1);
    if secret is Some {
        assert(e_secret =~= seq![arrival(m_secret[0], fds)]);
        run_one(c0, config, arrival(m_secret[0], fds));
    }
    assert(c0.run(config, e_secret) == ConfigStepView::More(c0));
    run_env(c0, config, request.env, fds);
    run_concat(c0, config, e_env, t2);
    let c1 = c0.run(config, e_env)->More_0;
    run_args(c1, config, request.args, fds);
    run_concat(c1, config, e_args, t3);
    let c2 = c1.run(config, e_args)->More_0;
    session_type_roundtrip(request.session_type);
    assert(e_type =~= seq![arrival(m_type[0], fds)]);
    run_one(c2, config, arrival(m_type[0], fds));
    run_concat(c2, config, e_type, t4);
    let c3 = c2.run(config, e_type)->More_0;
    run_concat(c3, config, e_size, t5);
    let c4 = c3.run(config, e_size)->More_0;
    if request.winsize is Some {
        let dims = request.winsize.unwrap();
        winsize_roundtrip(dims);
        assert(e_size =~= seq![arrival(m_size[0], fds)]);
        run_one(c3, config, arrival(m_size[0], fds));
        assert(c4 == ConfigurationView { winsize: dims, ..c3 });
    } else {
        assert(c4 == c3);
    }
    assert(e_stdio =~= seq![arrival(m_stdio[0], fds)]);
    run_one(c4, config, arrival(m_stdio[0], fds));
    run_concat(c4, config, e_stdio, e_end);
    let c5 = c4.run(config, e_stdio)->More_0;
    assert(c5.stdio == Some(fds));
    assert(e_end =~= seq![arrival(m_end[0], fds)]);
    run_one(c5, config, arrival(m_end[0], fds));
    assert(c5.finish() == ConfigStepView::Complete(granted(config, request, fds)));
}

/// The secret is the first thing that a client says, and it is all that a secret adds:
/// a front-end that takes the first message off leaves the configuration of a client
/// that was not asked for one.
pub proof fn secret_comes_first(request: ClientRequestView, secret: Seq<char>)
    ensures
        client::configuration(request, Some(secret))[0] == client::plain(
            MessageView::secret(vstd::utf8::encode_utf8(secret)),
        ),
        client::configuration(request, Some(secret)).drop_first() == client::configuration(
            request,
            None,
        ),
        client::configuration(request, None)[0].message.field_type != FieldType::Secret,
{
    assert(client::configuration(request, Some(secret)).drop_first() =~= client::configuration(
        request,
        None,
    ));
}

/// What every configuration keeps: the daemon's part comes first and stays as it is, and
/// where the client's part is ruled out there is nothing else.
pub open spec fn within_policy<F>(c: ConfigurationView<F>, config: DaemonConfigView) -> bool {
    &&& config.fixed_args.len() <= c.argv.len()
    &&& c.argv.take(config.fixed_args.len() as int) == config.fixed_args
    &&& config.no_client_argv ==> c.argv == config.fixed_args
    &&& config.fixed_env.len() <= c.envp.len()
    &&& c.envp.take(config.fixed_env.len() as int) == config.fixed_env
    &&& config.no_client_env ==> c.envp == config.fixed_env
    &&& c.winsize.len() == 4
    &&& c.stdio matches Some(fds) ==> fds.len() == 3
}

/// One event keeps a configuration within the policy.
proof fn step_keeps_policy<F>(
    c: ConfigurationView<F>,
    config: DaemonConfigView,
    event: IncomingView<F>,
)
    requires
        within_policy(c, config),
    ensures
        c.step(config, event) matches ConfigStepView::More(next) ==> within_policy(next, config),
{
    let n = config.fixed_args.len() as int;
    let k = config.fixed_env.len() as int;
    match c.step(config, event) {
        ConfigStepView::More(next) => {
            assert(next.argv.take(n) =~= c.argv.take(n));
            assert(next.envp.take(k) =~= c.envp.take(k));
        },
        _ => {},
    }
}

/// A configuration within the policy completes to a request within it.
proof fn run_keeps_policy<F>(
    c: ConfigurationView<F>,
    config: DaemonConfigView,
    events: Seq<IncomingView<F>>,
)
    requires
        within_policy(c, config),
    ensures
        c.run(config, events) matches ConfigStepView::Complete(r) ==> exists|last: ConfigurationView<F>|
            within_policy(last, config) && last.finish() == ConfigStepView::Complete(r),
    decreases events.len(),
{
    if events.len() > 0 {
        step_keeps_policy(c, config, events[0]);
        match c.step(config, events[0]) {
            ConfigStepView::More(next) => run_keeps_policy(next, config, events.drop_first()),
            ConfigStepView::Complete(r) => {
                assert(c.finish() == ConfigStepView::Complete(r));
            },
            ConfigStepView::Failed(_) => {},
        }
    }
}

/// Attenuation holds against every client: whatever a client sends, in whatever order,
/// a request that completes starts with the daemon's own arguments and environment. Where
/// the client's arguments are ruled out the command is exactly the daemon's, or a shell
/// if the daemon names none; where its environment is ruled out the environment is
/// exactly the daemon's.
pub proof fn policy_holds<F>(config: DaemonConfigView, events: Seq<IncomingView<F>>)
    ensures
        ConfigurationView::start(config).run(config, events) matches ConfigStepView::Complete(r)
            ==> {
            &&& config.fixed_args.len() > 0 ==> config.fixed_args.len() <= r.argv.len()
                && r.argv.take(config.fixed_args.len() as int) == config.fixed_args
            &&& config.no_client_argv ==> r.argv == if config.fixed_args.len() == 0 {
                seq!["sh"@]
            } else {
                config.fixed_args
            }
            &&& config.fixed_env.len() <= r.envp.len()
            &&& r.envp.take(config.fixed_env.len() as int) == config.fixed_env
            &&& config.no_client_env ==> r.envp == config.fixed_env
        },
{
    let c = ConfigurationView::<F>::start(config);
    assert(c.argv.take(config.fixed_args.len() as int) =~= config.fixed_args);
    assert(c.envp.take(config.fixed_env.len() as int) =~= config.fixed_env);
    run_keeps_policy(c, config, events);
}

/// A request that completes can be run: it names a program, and it has three descriptors
/// and four terminal dimensions.
pub proof fn complete_requests_can_run<F>(config: DaemonConfigView, events: Seq<IncomingView<F>>)
    ensures
        ConfigurationView::start(config).run(config, events) matches ConfigStepView::Complete(r)
            ==> r.argv.len() > 0 && r.stdio.len() == 3 && r.winsize.len() == 4,
{
    let c = ConfigurationView::<F>::start(config);
    assert(c.argv.take(config.fixed_args.len() as int) =~= config.fixed_args);
    assert(c.envp.take(config.fixed_env.len() as int) =~= config.fixed_env);
    run_keeps_policy(c, config, events);
}

/// A client that hangs up or stops in the middle gets nothing run: without the message
/// that ends a configuration no request completes.
pub proof fn only_end_completes<F>(
    c: ConfigurationView<F>,
    config: DaemonConfigView,
    events: Seq<IncomingView<F>>,
)
    requires
        forall|i: int| 0 <= i < events.len() ==> !(#[trigger] events[i] matches IncomingView::Message(
            r,
        ) && r.message.field_type == FieldType::End),
    ensures
        !(c.run(config, events) is Complete),
    decreases events.len(),
{
    if events.len() > 0 {
        assert(!(events[0] matches IncomingView::Message(r) && r.message.field_type
            == FieldType::End));
        match c.step(config, events[0]) {
            ConfigStepView::More(next) => {
                let rest = events.drop_first();
                assert forall|i: int| 0 <= i < rest.len() implies !(
                #[trigger] rest[i] matches IncomingView::Message(r) && r.message.field_type
                    == FieldType::End) by {
                    assert(rest[i] == events[i + 1]);
                }
                only_end_completes(next, config, rest);
            },
            _ => {},
        }
    }
}

/// A report that the program did not run reaches the client as it was meant: with the
/// daemon's reason and status, and as a refusal for a caller who wants a status only.
pub proof fn failure_is_understood<F>(reason: Seq<char>, status: i32)
    ensures
        client::outcome_run(None, arrivals::<F>(exit::failure_messages(reason, status)))
            == OutcomeStepView::Done(
            SessionOutcomeView::Failed { code: status, message: reason },
        ),
        client::status_of(SessionOutcomeView::Failed { code: status, message: reason }) == Err::<
            i32,
            CoreErrorView,
        >(CoreErrorView::Refused(reason)),
{
    let events = arrivals::<F>(exit::failure_messages(reason, status));
    text_roundtrip(FieldType::Error, reason);
    exit_roundtrip(status);
    reveal_with_fuel(client::outcome_run, 3);
    assert(client::outcome_step(None, events[0]) == OutcomeStepView::More(Some(reason)));
    assert(events.drop_first()[0] == events[1]);
    assert(client::outcome_step(Some(reason), events[1]) == OutcomeStepView::Done(
        SessionOutcomeView::Failed { code: status, message: reason },
    ));
}

/// The status of a program that ran reaches the client as it was.
pub proof fn exit_is_understood<F>(status: i32)
    ensures
        client::outcome_run(None, arrivals::<F>(seq![MessageView::exit(status)]))
            == OutcomeStepView::Done(SessionOutcomeView::Exited(status)),
{
    exit_roundtrip(status);
    let events = arrivals::<F>(seq![MessageView::exit(status)]);
    assert(events[0] == IncomingView::Message(
        ReceivedView { message: MessageView::exit(status), fds: Seq::<F>::empty() },
    ));
}

/// A demand for a secret reaches the client with its prompt.
pub proof fn challenge_is_understood<F>(prompt: Seq<char>)
    ensures
        client::outcome_run(
            None,
            arrivals::<F>(seq![MessageView::of_text(FieldType::Unauthorized, prompt)]),
        ) == OutcomeStepView::Done(SessionOutcomeView::Unauthorized(prompt)),
{
    text_roundtrip(FieldType::Unauthorized, prompt);
    let events = arrivals::<F>(seq![MessageView::of_text(FieldType::Unauthorized, prompt)]);
    assert(events[0] == IncomingView::Message(
        ReceivedView {
            message: MessageView::of_text(FieldType::Unauthorized, prompt),
            fds: Seq::<F>::empty(),
        },
    ));
}

/// The first error is the one that is told: once there is one, a session ends as a
/// failure with that reason, whatever else the daemon says, and never as a success.
pub proof fn first_error_is_kept<F>(first: Seq<char>, events: Seq<IncomingView<F>>)
    ensures
        match client::outcome_run(Some(first), events) {
            OutcomeStepView::More(failure) => failure == Some(first),
            OutcomeStepView::Done(SessionOutcomeView::Failed { code: _, message }) => message
                == first,
            OutcomeStepView::Done(SessionOutcomeView::Exited(_)) => false,
            _ => true,
        },
    decreases events.len(),
{
    if events.len() > 0 {
        match client::outcome_step(Some(first), events[0]) {
            OutcomeStepView::More(_) => first_error_is_kept(first, events.drop_first()),
            _ => {},
        }
    }
}

/// The user is asked for a secret once at most: after a session with a secret the client
/// ends.
pub proof fn asked_once(result: Result<SessionOutcomeView, CoreErrorView>)
    ensures
        invoke::session_action(true, result) is End,
{
}

/// What the daemon runs for a client, thing by thing: its own arguments and then the
/// client's, unless it keeps them out, and `sh` where that leaves none; its own variables and
/// then the client's, unless it keeps them out; the kind of session that the client chose;
/// the client's descriptors, in order; and the client's window size, or 24 rows of 80
/// columns.
pub proof fn requests_are_granted_thing_by_thing<F>(
    config: DaemonConfigView,
    request: ClientRequestView,
    secret: Option<Seq<char>>,
    fds: Seq<F>,
)
    requires
        request.winsize matches Some(dims) ==> dims.len() == 4,
        fds.len() == 3,
    ensures
        ConfigurationView::start(config).run(
            config,
            delivered(client::configuration(request, secret), fds),
        ) matches ConfigStepView::Complete(r) && {
            &&& config.no_client_argv && config.fixed_args.len() > 0 ==> r.argv
                == config.fixed_args
            &&& !config.no_client_argv && config.fixed_args.len() + request.args.len() > 0
                ==> r.argv == config.fixed_args + request.args
            &&& config.fixed_args.len() == 0 && (config.no_client_argv || request.args.len() == 0)
                ==> r.argv == seq!["sh"@]
            &&& config.no_client_env ==> r.envp == config.fixed_env
            &&& !config.no_client_env ==> r.envp == config.fixed_env + request.env
            &&& r.session_type == request.session_type
            &&& r.stdio == fds
            &&& request.winsize matches Some(dims) ==> r.winsize == dims
            &&& request.winsize is None ==> r.winsize == seq![24u16, 80u16, 0u16, 0u16]
        },
{
    configuration_is_granted(config, request, secret, fds);
    if config.no_client_argv {
    } else if config.fixed_args.len() + request.args.len() > 0 {
        assert((config.fixed_args + request.args).len() > 0);
    } else {
        assert((config.fixed_args + request.args).len() == 0);
    }
}

/// What the client is called with is what runs: a daemon that fixes nothing runs exactly the
/// program's words that stand behind the client's flags, all and in order, unless the flags
/// ask for a shell.
pub proof fn program_words_are_run<F>(
    flags: Seq<Seq<char>>,
    program: Seq<Seq<char>>,
    values: Seq<Option<Seq<char>>>,
    shell: Option<Seq<char>>,
    session_type: SessionType,
    winsize: Option<Seq<u16>>,
    secret: Option<Seq<char>>,
    fds: Seq<F>,
)
    requires
        options::flags_only(Tool::Client, flags),
        forall|i: int|
            0 <= i < options::cut_words(Tool::Client, flags).0.len()
                ==> #[trigger] options::cut_words(Tool::Client, flags).0[i] != ItemView::Switch(
                Flag::Shell,
            ),
        program.len() > 0,
        winsize matches Some(dims) ==> dims.len() == 4,
        fds.len() == 3,
    ensures
        ({
            let config = DaemonConfigView {
                fixed_args: Seq::empty(),
                fixed_env: Seq::empty(),
                no_client_argv: false,
                no_client_env: false,
            };
            options::client_options(flags + (seq!["--"@] + program)) matches Some(o)
                && ConfigurationView::start(config).run(
                config,
                delivered(
                    client::configuration(
                        invoke::request_of(o, values, shell, session_type, winsize),
                        secret,
                    ),
                    fds,
                ),
            ) matches ConfigStepView::Complete(r) && r.argv == program && r.stdio == fds
                && r.session_type == session_type
        }),
{
    let config = DaemonConfigView {
        fixed_args: Seq::empty(),
        fixed_env: Seq::empty(),
        no_client_argv: false,
        no_client_env: false,
    };
    invoke::all_program_words_are_requested(flags, program, values, shell, session_type, winsize);
    let o = options::client_options(flags + (seq!["--"@] + program)).unwrap();
    let request = invoke::request_of(o, values, shell, session_type, winsize);
    invoke::requests_mean(o, values, shell, session_type, winsize);
    requests_are_granted_thing_by_thing(config, request, secret, fds);
    assert(config.fixed_args + request.args =~= program);
}

} // verus!
