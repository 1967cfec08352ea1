use capsudo::options::{
    classify, cut_command_line, parse_client_options, parse_daemon_options, parse_pwauth_options,
    DaemonMode, Flag, OptionsError, Tool, Word,
};
use capsudo::proto::SessionType;

fn words(list: &[&str]) -> Vec<String> {
    list.iter().map(|s| s.to_string()).collect()
}

#[test]
fn client_defaults_apply() {
    let o = parse_client_options(&words(&[])).ok().unwrap();
    assert_eq!(o.socket, "/run/capsudo/default");
    assert!(o.session.is_none());
    assert!(!o.shell);
    assert!(o.env.is_empty());
    assert!(o.args.is_empty());
}

#[test]
fn client_flags_are_read_and_the_last_one_wins() {
    let o = parse_client_options(&words(&[
        "-i", "-S", "/a", "-e", "A=1", "-n", "-s", "-e", "B=2", "-S", "/b", "--", "id", "-u",
    ]))
    .ok()
    .unwrap();
    assert_eq!(o.socket, "/b");
    assert_eq!(o.session, Some(SessionType::NonInteractive));
    assert!(o.shell);
    assert_eq!(o.env, words(&["A=1", "B=2"]));
    assert_eq!(o.args, words(&["id", "-u"]));
}

#[test]
fn program_words_are_left_alone() {
    let o = parse_client_options(&words(&["ls", "-la", "--", "-S"]))
        .ok()
        .unwrap();
    assert_eq!(o.args, words(&["ls", "-la", "--", "-S"]));
    let o = parse_client_options(&words(&["-n", "--", "-i", "--help"]))
        .ok()
        .unwrap();
    assert_eq!(o.args, words(&["-i", "--help"]));
    assert_eq!(o.session, Some(SessionType::NonInteractive));
}

#[test]
fn a_word_that_is_no_flag_starts_the_program() {
    // `-m` is a flag of the listening programs only.
    assert_eq!(classify(Tool::Client, "-m"), Word::Program);
    assert_eq!(classify(Tool::Daemon, "-m"), Word::Valued(Flag::Mode));
    assert_eq!(classify(Tool::Pwauth, "-e"), Word::Program);
    let o = parse_client_options(&words(&["-m", "0700"])).ok().unwrap();
    assert_eq!(o.args, words(&["-m", "0700"]));
}

#[test]
fn client_is_told_how_to_be_called() {
    for line in [
        words(&["-h"]),
        words(&["--help"]),
        words(&["-n", "-h"]),
        words(&["-S"]),
        words(&["-i", "-e"]),
    ] {
        let e = parse_client_options(&line).err().unwrap();
        assert!(matches!(e, OptionsError::Usage));
        assert!(e
            .message(Tool::Client)
            .starts_with("usage: capsudo [-S socket]"));
        assert!(e.message(Tool::Client).contains("/run/capsudo/default"));
    }
}

#[test]
fn cutting_keeps_the_flags_before_a_missing_value() {
    let (items, program) = cut_command_line(Tool::Daemon, &words(&["-f", "-m"]));
    assert_eq!(items.len(), 1);
    assert!(program.is_none());
}

#[test]
fn daemon_listens_or_serves_its_input() {
    let o = parse_daemon_options(&words(&[
        "-S", "/run/x", "-o", "5:6", "-m", "0700", "-f", "-e", "K=V", "/sbin/reboot", "-f",
    ]))
    .ok()
    .unwrap();
    let (mode, config) = o.into_daemon();
    match mode {
        DaemonMode::Listen {
            socket,
            uid,
            gid,
            mode,
        } => {
            assert_eq!(socket, "/run/x");
            assert_eq!((uid, gid), (Some(5), Some(6)));
            assert_eq!(mode, 0o700);
        }
        DaemonMode::OneShot => panic!("it has an endpoint"),
    }
    assert_eq!(config.fixed_args, words(&["/sbin/reboot", "-f"]));
    assert_eq!(config.fixed_env, words(&["K=V"]));
    assert!(config.no_client_argv);
    assert!(!config.no_client_env);

    let (mode, config) = parse_daemon_options(&words(&["-E"]))
        .ok()
        .unwrap()
        .into_daemon();
    assert!(matches!(mode, DaemonMode::OneShot));
    assert!(config.no_client_env);
    assert!(config.fixed_args.is_empty());
}

#[test]
fn daemon_default_mode_is_0770() {
    let o = parse_daemon_options(&words(&["-S", "/x"])).ok().unwrap();
    assert_eq!(o.mode, 0o770);
    assert_eq!((o.uid, o.gid), (None, None));
}

#[test]
fn daemon_errors_name_the_first_bad_flag() {
    let e = parse_daemon_options(&words(&["-m", "999", "-o", ""]))
        .err()
        .unwrap();
    assert_eq!(e.message(Tool::Daemon), "capsudod: invalid mode: 999");
    let e = parse_daemon_options(&words(&["-o", ":", "-m", "999"]))
        .err()
        .unwrap();
    assert_eq!(e.message(Tool::Daemon), "capsudod: invalid owner spec: :");
    // A flag that cannot be applied counts before a flag without a value.
    let e = parse_daemon_options(&words(&["-m", "x", "-S"])).err().unwrap();
    assert!(matches!(e, OptionsError::InvalidMode(_)));
    let e = parse_daemon_options(&words(&["-h", "-m", "x"])).err().unwrap();
    assert!(matches!(e, OptionsError::Usage));
    assert!(e.message(Tool::Daemon).starts_with("usage: capsudod "));
}

#[test]
fn front_end_needs_an_endpoint_and_has_a_default_daemon() {
    let e = parse_pwauth_options(&words(&["--", "capsudod"]))
        .err()
        .unwrap();
    assert!(matches!(e, OptionsError::Usage));
    assert!(e.message(Tool::Pwauth).starts_with("usage: capsudod-pwauth "));
    let o = parse_pwauth_options(&words(&["-S", "/x"])).ok().unwrap();
    assert_eq!(o.capsudod_cmd, words(&["capsudod"]));
    assert_eq!(o.mode, 0o770);
    let o = parse_pwauth_options(&words(&[
        "-S", "/x", "-o", "0", "--", "capsudod", "-f", "id",
    ]))
    .ok()
    .unwrap();
    assert_eq!(o.capsudod_cmd, words(&["capsudod", "-f", "id"]));
    assert_eq!((o.uid, o.gid), (Some(0), None));
    let e = parse_pwauth_options(&words(&["-S", "/x", "-m", "8"]))
        .err()
        .unwrap();
    assert_eq!(e.message(Tool::Pwauth), "capsudod-pwauth: invalid mode: 8");
}
