use capsudo::client::{
    client_status, configuration_messages, forwards_resizes, session_result, ClientRequest,
    OutcomeStep, OutcomeWait, SessionOutcome,
};
use capsudo::daemon::{refuse, ConfigStep, Configuration, DaemonConfig, SessionRequest};
use capsudo::error::{CoreError, IoFailure, IoKind, TransportError};
use capsudo::exit::{exit_code, report_exit, report_failure, report_spawn_failure};
use capsudo::invoke::{
    after_failed_connect, after_prompt, after_session, append_default_env, default_env,
    secret_from_line, ClientAction, PromptAction,
};
use capsudo::options::parse_client_options;
use capsudo::proto::{FieldType, Message, ProtoError, SessionType};
use capsudo::run::{
    determine_session_type, environment, Interactive, InteractiveAction, InteractiveEvent,
};
use capsudo::transport::{FdDir, Incoming, Received};

fn texts(list: &[&str]) -> Vec<String> {
    list.iter().map(|s| s.to_string()).collect()
}

fn message(m: Message) -> Incoming<u32> {
    Incoming::Message(Received {
        message: m,
        fds: Vec::new(),
    })
}

fn with_fds(m: Message, fds: Vec<u32>) -> Incoming<u32> {
    Incoming::Message(Received { message: m, fds })
}

fn request(args: &[&str], env: &[&str]) -> ClientRequest {
    ClientRequest {
        args: texts(args),
        env: texts(env),
        session_type: SessionType::NonInteractive,
        winsize: None,
    }
}

/// Feeds a configuration to the daemon until it is settled.
fn configure(
    config: &DaemonConfig,
    events: Vec<Incoming<u32>>,
) -> Result<SessionRequest<u32>, CoreError> {
    let mut state = Configuration::start(config);
    for event in events {
        match state.step(config, event) {
            ConfigStep::More(next) => state = next,
            ConfigStep::Complete(r) => return Ok(r),
            ConfigStep::Failed(e) => return Err(e),
        }
    }
    panic!("the configuration is not settled");
}

/// Feeds answers to the client until its session is over.
fn outcome(events: Vec<Incoming<u32>>) -> Result<SessionOutcome, CoreError> {
    let mut wait = OutcomeWait::start();
    for event in events {
        match wait.step(event) {
            OutcomeStep::More(next) => wait = next,
            OutcomeStep::Done(o) => return Ok(o),
            OutcomeStep::Failed(e) => return Err(e),
        }
    }
    panic!("the session is not over");
}

fn sent(request: &ClientRequest, secret: Option<&str>) -> Vec<Incoming<u32>> {
    configuration_messages(request, secret)
        .into_iter()
        .map(|o| {
            let fds = if o.dirs.is_empty() {
                Vec::new()
            } else {
                vec![10, 11, 12]
            };
            with_fds(o.message, fds)
        })
        .collect()
}

#[test]
fn configuration_is_said_in_order() {
    let mut r = request(&["id", "-u"], &["A=1"]);
    r.session_type = SessionType::Interactive;
    r.winsize = Some([24, 80, 0, 0]);
    let list = configuration_messages(&r, Some("pw"));
    let types: Vec<FieldType> = list.iter().map(|o| o.message.field_type()).collect();
    assert_eq!(
        types,
        vec![
            FieldType::Secret,
            FieldType::Env,
            FieldType::Arg,
            FieldType::Arg,
            FieldType::SessionType,
            FieldType::Winsize,
            FieldType::Fd,
            FieldType::End,
        ]
    );
    assert_eq!(list[0].message.payload(), b"pw");
    assert_eq!(list[2].message.as_str().unwrap(), "id");
    assert_eq!(list[3].message.as_str().unwrap(), "-u");
    assert_eq!(list[6].message.as_u32().unwrap(), 3);
    assert_eq!(
        list[6].dirs,
        vec![FdDir::Read, FdDir::Write, FdDir::Write]
    );
    assert!(list.iter().filter(|o| !o.dirs.is_empty()).count() == 1);
    assert_eq!(configuration_messages(&request(&[], &[]), None).len(), 3);
}

#[test]
fn daemon_runs_what_the_client_asks_for() {
    let mut r = request(&["id", "-u"], &["A=1", "B=2"]);
    r.session_type = SessionType::Interactive;
    r.winsize = Some([50, 132, 1, 2]);
    for secret in [None, Some("pw")] {
        let got = configure(&DaemonConfig::default(), sent(&r, secret))
            .ok()
            .unwrap();
        assert_eq!(got.argv, texts(&["id", "-u"]));
        assert_eq!(got.envp, texts(&["A=1", "B=2"]));
        assert_eq!(got.session_type, SessionType::Interactive);
        assert_eq!(got.stdio, [10, 11, 12]);
        assert_eq!(got.winsize, [50, 132, 1, 2]);
    }
}

#[test]
fn fixed_parts_come_first() {
    let config = DaemonConfig {
        fixed_args: texts(&["env"]),
        fixed_env: texts(&["X=0"]),
        no_client_argv: false,
        no_client_env: false,
    };
    let got = configure(&config, sent(&request(&["-i"], &["A=1"]), None))
        .ok()
        .unwrap();
    assert_eq!(got.argv, texts(&["env", "-i"]));
    assert_eq!(got.envp, texts(&["X=0", "A=1"]));
    assert_eq!(got.winsize, [24, 80, 0, 0]);
}

#[test]
fn attenuation_rules_the_client_out() {
    let config = DaemonConfig {
        fixed_args: texts(&["/sbin/reboot"]),
        fixed_env: Vec::new(),
        no_client_argv: true,
        no_client_env: true,
    };
    let got = configure(&config, sent(&request(&["rm", "-rf"], &["A=1"]), None))
        .ok()
        .unwrap();
    assert_eq!(got.argv, texts(&["/sbin/reboot"]));
    assert!(got.envp.is_empty());
    // What is ignored need not even be text.
    let bad = Message::new(FieldType::Arg, vec![0xff]);
    let got = configure(
        &config.clone(),
        vec![
            message(bad),
            with_fds(Message::fds(3), vec![1, 2, 3]),
            message(Message::end()),
        ],
    );
    assert_eq!(got.ok().unwrap().argv, texts(&["/sbin/reboot"]));
}

#[test]
fn no_program_means_a_shell() {
    let got = configure(&DaemonConfig::default(), sent(&request(&[], &[]), None))
        .ok()
        .unwrap();
    assert_eq!(got.argv, texts(&["sh"]));
}

#[test]
fn configuration_errors_are_told_apart() {
    let config = DaemonConfig::default();
    let e = configure(&config, vec![Incoming::Closed]).err().unwrap();
    assert!(matches!(e, CoreError::ClientClosed));
    let e = configure(&config, vec![message(Message::end())])
        .err()
        .unwrap();
    assert_eq!(
        e.message(),
        "protocol violation: client did not delegate stdio descriptors"
    );
    let e = configure(&config, vec![with_fds(Message::fds(2), vec![1, 2])])
        .err()
        .unwrap();
    assert_eq!(
        e.message(),
        "protocol violation: expected exactly three stdio descriptors"
    );
    let e = configure(
        &config,
        vec![message(Message::new(FieldType::Env, vec![0xff]))],
    )
    .err()
    .unwrap();
    assert!(matches!(
        e,
        CoreError::Proto(ProtoError::InvalidPayload { .. })
    ));
    let e = configure(
        &config,
        vec![message(Message::new(FieldType::SessionType, vec![7]))],
    )
    .err()
    .unwrap();
    assert!(matches!(
        e,
        CoreError::Proto(ProtoError::InvalidSessionType(7))
    ));
    let e = configure(
        &config,
        vec![message(Message::new(FieldType::Winsize, vec![7]))],
    )
    .err()
    .unwrap();
    assert!(e.message().contains("expected 8-byte window size"));
    let e = configure(
        &config,
        vec![Incoming::Failed(TransportError::UnexpectedEof)],
    )
    .err()
    .unwrap();
    assert_eq!(
        e.message(),
        "unexpected end of stream while reading a message"
    );
}

#[test]
fn messages_that_mean_nothing_are_ignored() {
    let got = configure(
        &DaemonConfig::default(),
        vec![
            message(Message::exit(3)),
            message(Message::error("x")),
            message(Message::unauthorized("y")),
            message(Message::secret(b"z")),
            with_fds(Message::fds(3), vec![1, 2, 3]),
            with_fds(Message::fds(3), vec![4, 5, 6]),
            message(Message::end()),
        ],
    )
    .ok()
    .unwrap();
    assert_eq!(got.stdio, [4, 5, 6]);
    assert_eq!(got.session_type, SessionType::NonInteractive);
}

#[test]
fn refusals_reach_the_client() {
    let answer = refuse(&CoreError::ClientClosed);
    let events = answer.into_iter().map(message).collect();
    match outcome(events).ok().unwrap() {
        SessionOutcome::Failed { code, message } => {
            assert_eq!(code, 1);
            assert_eq!(
                message,
                "client closed the connection before completing configuration"
            );
        }
        _ => panic!("it was refused"),
    }
    let answer = report_spawn_failure("nope", "No such file or directory (os error 2)");
    let events = answer.into_iter().map(message).collect();
    let o = outcome(events).ok().unwrap();
    let e = client_status(o).err().unwrap();
    assert_eq!(
        e.message(),
        "unable to run nope: No such file or directory (os error 2)"
    );
    assert!(matches!(e, CoreError::Refused(_)));
}

#[test]
fn exit_status_reaches_the_client() {
    let o = outcome(vec![
        message(Message::winsize([1, 2, 3, 4])),
        message(Message::exit(7)),
    ]);
    assert_eq!(client_status(o.ok().unwrap()).ok().unwrap(), 7);
}

#[test]
fn first_error_is_told() {
    let o = outcome(vec![
        message(Message::error("first")),
        message(Message::error("second")),
        message(Message::exit(9)),
    ]);
    match o.ok().unwrap() {
        SessionOutcome::Failed { code, message } => {
            assert_eq!((code, message.as_str()), (9, "first"));
        }
        _ => panic!("an error came"),
    }
}

#[test]
fn odd_answers_have_stand_in_texts() {
    let o = outcome(vec![message(Message::new(
        FieldType::Unauthorized,
        vec![0xff],
    ))]);
    assert!(matches!(o, Ok(SessionOutcome::Unauthorized(p)) if p == "password: "));
    let o = outcome(vec![
        message(Message::new(FieldType::Error, vec![0xff])),
        message(Message::exit(1)),
    ]);
    assert!(
        matches!(o, Ok(SessionOutcome::Failed { message, .. }) if message == "<malformed error>")
    );
    let o = outcome(vec![message(Message::new(FieldType::Exit, vec![1]))]);
    assert!(matches!(
        o,
        Err(CoreError::Proto(ProtoError::InvalidPayload { .. }))
    ));
    let o = outcome(vec![Incoming::Closed]);
    assert!(matches!(o, Err(CoreError::DaemonClosed)));
    let o = outcome(vec![Incoming::Failed(TransportError::Other(
        "broken".to_string(),
    ))]);
    assert_eq!(o.err().unwrap().message(), "broken");
}

#[test]
fn challenge_is_an_error_for_a_plain_caller() {
    let o = outcome(vec![message(Message::unauthorized("who? "))])
        .ok()
        .unwrap();
    let e = client_status(o).err().unwrap();
    assert_eq!(e.message(), "protocol violation: authentication required");
}

#[test]
fn an_outcome_counts_more_than_a_failed_send() {
    let failed = || Err(CoreError::Transport(TransportError::UnexpectedEof));
    let r = session_result(Ok(SessionOutcome::Exited(0)), failed());
    assert!(matches!(r, Ok(SessionOutcome::Exited(0))));
    let r = session_result(Err(CoreError::DaemonClosed), Ok(()));
    assert!(matches!(r, Err(CoreError::DaemonClosed)));
    let r = session_result(Err(CoreError::DaemonClosed), failed());
    assert!(matches!(r, Err(CoreError::Transport(_))));
}

#[test]
fn resizes_are_forwarded_for_interactive_sessions() {
    let mut r = request(&[], &[]);
    assert!(!forwards_resizes(true, &r));
    r.winsize = Some([1, 1, 1, 1]);
    assert!(forwards_resizes(true, &r));
    assert!(!forwards_resizes(false, &r));
}

#[test]
fn program_is_started_with_the_delegated_environment() {
    let got = configure(
        &DaemonConfig::default(),
        sent(&request(&["id", "-u"], &["A=1=2", "nothing", "=x", "B="]), None),
    )
    .ok()
    .unwrap();
    let plan = got.exec_plan(true, true);
    assert_eq!(plan.program, "id");
    assert_eq!(plan.args, texts(&["-u"]));
    assert_eq!(
        plan.env,
        vec![
            ("A".to_string(), "1=2".to_string()),
            ("".to_string(), "x".to_string()),
            ("B".to_string(), "".to_string()),
        ]
    );
    assert!(!plan.interactive);
    assert_eq!(environment(&texts(&["X"])).len(), 0);
}

#[test]
fn automatic_sessions_go_by_the_terminals() {
    let mut r = request(&["id"], &[]);
    r.session_type = SessionType::Auto;
    let got = configure(&DaemonConfig::default(), sent(&r, None))
        .ok()
        .unwrap();
    assert!(got.exec_plan(true, true).interactive);
    assert!(!got.exec_plan(true, false).interactive);
    assert!(!got.exec_plan(false, true).interactive);
    r.session_type = SessionType::Interactive;
    let got = configure(&DaemonConfig::default(), sent(&r, None))
        .ok()
        .unwrap();
    assert!(got.exec_plan(false, false).interactive);
    assert_eq!(
        determine_session_type(true, true),
        SessionType::Interactive
    );
    assert_eq!(
        determine_session_type(true, false),
        SessionType::NonInteractive
    );
}

#[test]
fn interactive_session_follows_the_terminal() {
    let s = Interactive::Running;
    let (s, a) = s.step(InteractiveEvent::Client(message(Message::winsize([
        30, 90, 0, 0,
    ]))));
    assert!(matches!(a, InteractiveAction::Resize([30, 90, 0, 0])));
    let (s, a) = s.step(InteractiveEvent::Client(message(Message::new(
        FieldType::Winsize,
        vec![1],
    ))));
    assert!(matches!(a, InteractiveAction::Wait));
    let (s, a) = s.step(InteractiveEvent::Client(message(Message::arg("x"))));
    assert!(matches!(a, InteractiveAction::Wait));
    let (s, a) = s.step(InteractiveEvent::Client(Incoming::<u32>::Closed));
    assert!(matches!(a, InteractiveAction::Kill));
    assert_eq!(s, Interactive::Ending);
    let (s, a) = s.step(InteractiveEvent::Client(message(Message::winsize([
        1, 1, 1, 1,
    ]))));
    assert!(matches!(a, InteractiveAction::Wait));
    let (s, a) = s.step(InteractiveEvent::<u32>::Exited {
        code: None,
        signal: Some(9),
    });
    // The output goes first, then the status.
    assert!(matches!(a, InteractiveAction::Drain));
    assert_eq!(s, Interactive::Draining(137));
    let (s, a) = s.step(InteractiveEvent::<u32>::Client(Incoming::Closed));
    assert!(matches!(a, InteractiveAction::Wait));
    let (s, a) = s.step(InteractiveEvent::<u32>::Drained);
    match a {
        InteractiveAction::Report(m) => assert_eq!(m.as_i32().unwrap(), 137),
        _ => panic!("the program ended"),
    }
    let (s, a) = s.step(InteractiveEvent::<u32>::Drained);
    assert!(matches!(a, InteractiveAction::Wait));
    assert_eq!(s, Interactive::Over);
    let (_, a) = Interactive::Running.step(InteractiveEvent::<u32>::Drained);
    assert!(matches!(a, InteractiveAction::Wait));
    let (_, a) = Interactive::Running.step(InteractiveEvent::<u32>::Client(Incoming::Failed(
        TransportError::UnexpectedEof,
    )));
    assert!(matches!(a, InteractiveAction::Kill));
}

#[test]
fn exit_codes_cover_signals() {
    assert_eq!(exit_code(Some(3), None), 3);
    assert_eq!(exit_code(Some(3), Some(9)), 3);
    assert_eq!(exit_code(None, Some(15)), 143);
    assert_eq!(exit_code(None, None), 1);
    assert!(report_exit(Some(3), None) == Message::exit(3));
    assert!(report_exit(None, Some(15)) == Message::exit(143));
    let list = report_failure("why", 5);
    assert_eq!(list[0].as_str().unwrap(), "why");
    assert_eq!(list[1].as_i32().unwrap(), 5);
    assert_eq!(list.len(), 2);
}

#[test]
fn variables_are_passed_on() {
    assert_eq!(
        default_env(),
        ["TERM", "LANG", "LC_ALL", "LC_CTYPE", "LC_MESSAGES", "COLORTERM"]
    );
    let mut env = texts(&["A=1"]);
    let values = vec![
        Some("xterm".to_string()),
        None,
        Some("C".to_string()),
        None,
        None,
        Some("".to_string()),
    ];
    append_default_env(&mut env, &values);
    assert_eq!(env, texts(&["A=1", "TERM=xterm", "LC_ALL=C", "COLORTERM="]));
}

#[test]
fn options_become_a_request() {
    let none: Vec<Option<String>> = vec![None, None, None, None, None, None];
    let o = parse_client_options(&texts(&["-s", "-e", "A=1", "id"]))
        .ok()
        .unwrap();
    assert_eq!(o.session_type(true, true), SessionType::Interactive);
    let r = o.into_request(
        &none,
        Some("/bin/zsh".to_string()),
        SessionType::Interactive,
        Some([1, 2, 3, 4]),
    );
    assert_eq!(r.args, texts(&["/bin/zsh"]));
    assert_eq!(r.env, texts(&["A=1"]));
    assert_eq!(r.winsize, Some([1, 2, 3, 4]));
    let o = parse_client_options(&texts(&["-s"])).ok().unwrap();
    let r = o.into_request(&none, None, SessionType::NonInteractive, Some([1, 2, 3, 4]));
    assert_eq!(r.args, texts(&["sh"]));
    assert_eq!(r.winsize, None);
    let o = parse_client_options(&texts(&["-n", "id"])).ok().unwrap();
    assert_eq!(o.session_type(true, true), SessionType::NonInteractive);
    let r = o.into_request(
        &none,
        Some("/bin/zsh".to_string()),
        SessionType::NonInteractive,
        None,
    );
    assert_eq!(r.args, texts(&["id"]));
}

#[test]
fn secrets_lose_their_line_end() {
    assert_eq!(secret_from_line(Some("pw\r\n")), Some("pw".to_string()));
    assert_eq!(secret_from_line(Some("pw\n\r\n")), Some("pw".to_string()));
    assert_eq!(secret_from_line(Some(" p w ")), Some(" p w ".to_string()));
    assert_eq!(secret_from_line(Some("\n")), None);
    assert_eq!(secret_from_line(Some("")), None);
    assert_eq!(secret_from_line(None), None);
}

#[test]
fn user_is_asked_once() {
    let challenge = || Ok(SessionOutcome::Unauthorized("who? ".to_string()));
    match after_session(false, challenge()) {
        ClientAction::AskSecret(prompt) => assert_eq!(prompt, "who? "),
        _ => panic!("a secret is required"),
    }
    match after_session(true, challenge()) {
        ClientAction::End { report, status } => {
            assert_eq!(report.unwrap(), "capsudo: authentication failed");
            assert_eq!(status, 1);
        }
        _ => panic!("it was asked already"),
    }
    match after_prompt(Some("pw\n")) {
        PromptAction::Retry(secret) => assert_eq!(secret, "pw"),
        _ => panic!("there is a secret"),
    }
    match after_prompt(None) {
        PromptAction::End { report, status } => {
            assert_eq!(
                report,
                "capsudo: a secret is required but none was provided"
            );
            assert_eq!(status, 1);
        }
        _ => panic!("there is no secret"),
    }
}

#[test]
fn process_status_is_the_low_byte() {
    for (code, status) in [(0, 0u8), (3, 3), (256, 0), (300, 44), (-1, 255), (137, 137)] {
        match after_session(false, Ok(SessionOutcome::Exited(code))) {
            ClientAction::End {
                report: None,
                status: s,
            } => assert_eq!(s, status),
            _ => panic!("the program ran"),
        }
    }
    match after_session(
        false,
        Ok(SessionOutcome::Failed {
            code: 127,
            message: "unable".to_string(),
        }),
    ) {
        ClientAction::End { report, status } => {
            assert_eq!(report.unwrap(), "capsudo: error: unable");
            assert_eq!(status, 127);
        }
        _ => panic!("it failed"),
    }
    match after_session(true, Err(CoreError::DaemonClosed)) {
        ClientAction::End { report, status } => {
            assert_eq!(
                report.unwrap(),
                "capsudo: daemon closed the connection before sending an exit status"
            );
            assert_eq!(status, 1);
        }
        _ => panic!("it failed"),
    }
}

#[test]
fn connection_failures_are_told() {
    let cause = TransportError::from(IoFailure {
        kind: IoKind::NotFound,
        text: "No such file or directory (os error 2)".to_string(),
    });
    match after_failed_connect("/run/x", &cause) {
        ClientAction::End { report, status } => {
            assert_eq!(
                report.unwrap(),
                "capsudo: cannot connect to daemon at /run/x: transport i/o: No such file or directory (os error 2)"
            );
            assert_eq!(status, 1);
        }
        _ => panic!("there is no connection"),
    }
}

#[test]
fn errors_convert_and_have_words() {
    let io = || IoFailure {
        kind: IoKind::Other,
        text: "boom".to_string(),
    };
    assert_eq!(CoreError::from(io()).message(), "i/o: boom");
    assert_eq!(
        CoreError::from(TransportError::from(io())).message(),
        "transport i/o: boom"
    );
    assert_eq!(
        TransportError::from(ProtoError::UnknownFieldType(0)).message(),
        "protocol: unknown field type byte: 0"
    );
    assert_eq!(
        CoreError::from(ProtoError::UnknownFieldType(0)).message(),
        "unknown field type byte: 0"
    );
    assert_eq!(
        CoreError::Protocol("no").message(),
        "protocol violation: no"
    );
}

#[test]
fn unfinished_configuration_runs_nothing() {
    let config = DaemonConfig::default();
    let mut events = sent(&request(&["id"], &[]), None);
    events.pop();
    let mut state = Configuration::start(&config);
    for event in events {
        match state.step(&config, event) {
            ConfigStep::More(next) => state = next,
            _ => panic!("the client has not finished"),
        }
    }
    assert!(matches!(
        state.step(&config, Incoming::Closed),
        ConfigStep::Failed(CoreError::ClientClosed)
    ));
}

#[test]
fn passed_variables_are_set_for_the_program() {
    let mut env = Vec::new();
    let values = vec![
        Some("xterm=256".to_string()),
        None,
        None,
        None,
        None,
        None,
    ];
    append_default_env(&mut env, &values);
    assert_eq!(
        environment(&env),
        vec![("TERM".to_string(), "xterm=256".to_string())]
    );
}
