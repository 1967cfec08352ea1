use capsudo::client::{configuration_messages, ClientRequest};
use capsudo::error::TransportError;
use capsudo::proto::{FieldType, Message, SessionType};
use capsudo::pwauth::{after_check, auth_prompt, greet, greet_peer, FrontEnd, FrontStep, Greeting};
use capsudo::shadow::{admits, hash_for, stored_hash};
use capsudo::transport::{Incoming, PeerCred, Received};

fn cred(uid: u32) -> Option<PeerCred> {
    Some(PeerCred {
        pid: 1,
        uid,
        gid: 0xffff_fff1,
    })
}

fn front() -> FrontEnd {
    FrontEnd {
        uid: 5,
        user: "ada".to_string(),
        prompt: "[capsudo] ada@box's password: ".to_string(),
    }
}

fn arrives(m: Message, fds: Vec<u32>) -> Incoming<u32> {
    Incoming::Message(Received { message: m, fds })
}

#[test]
fn prompts_name_user_and_host() {
    assert_eq!(
        auth_prompt("ada", Some("box".to_string())),
        "[capsudo] ada@box's password: "
    );
    assert_eq!(
        auth_prompt("ada", None),
        "[capsudo] ada@localhost's password: "
    );
}

#[test]
fn unknown_peers_are_refused() {
    for (g, words) in [
        (
            greet(None, Some((5, "ada".to_string())), None),
            "unable to determine peer credentials",
        ),
        (greet(cred(5), None, None), "unknown peer user"),
        (greet_peer(None), "unable to determine peer credentials"),
    ] {
        match g {
            Greeting::Refuse(list) => {
                assert_eq!(list[0].as_str().unwrap(), words);
                assert_eq!(list[0].field_type(), FieldType::Error);
                assert_eq!(list[1].as_i32().unwrap(), 1);
            }
            Greeting::Wait(_) => panic!("nobody knows the peer"),
        }
    }
}

#[test]
fn known_peers_are_waited_for() {
    match greet(
        cred(5),
        Some((5, "ada".to_string())),
        Some("box".to_string()),
    ) {
        Greeting::Wait(f) => {
            assert_eq!((f.uid, f.user.as_str()), (5, "ada"));
            assert_eq!(f.prompt, "[capsudo] ada@box's password: ");
        }
        Greeting::Refuse(_) => panic!("the peer is known"),
    }
}

#[test]
fn peers_are_looked_up_on_this_machine() {
    match greet_peer(cred(0)) {
        Greeting::Wait(f) => {
            assert_eq!((f.uid, f.user.as_str()), (0, "root"));
            assert!(f.prompt.starts_with("[capsudo] root@"));
            assert!(f.prompt.ends_with("'s password: "));
        }
        Greeting::Refuse(_) => panic!("the superuser is known"),
    }
    // An id that nobody has.
    assert!(matches!(
        greet_peer(cred(0xffff_fff0)),
        Greeting::Refuse(_)
    ));
}

#[test]
fn only_secrets_are_checked() {
    match front().step(arrives(Message::secret(b"pw"), vec![])) {
        FrontStep::Check(secret) => assert_eq!(secret, b"pw".to_vec()),
        _ => panic!("it is a secret"),
    }
    for incoming in [
        arrives(Message::arg("id"), vec![]),
        arrives(Message::end(), vec![]),
        arrives(Message::secret(b"pw"), vec![1]),
    ] {
        match front().step(incoming) {
            FrontStep::Challenge(m) => {
                assert!(m == Message::unauthorized("[capsudo] ada@box's password: "));
            }
            _ => panic!("a secret is required"),
        }
    }
    assert!(matches!(
        front().step(Incoming::<u32>::Closed),
        FrontStep::Drop
    ));
    assert!(matches!(
        front().step(Incoming::<u32>::Failed(TransportError::UnexpectedEof)),
        FrontStep::Drop
    ));
}

#[test]
fn clients_are_challenged_or_checked() {
    let request = ClientRequest {
        args: vec!["id".to_string()],
        env: vec![],
        session_type: SessionType::NonInteractive,
        winsize: None,
    };
    let first = configuration_messages(&request, None).remove(0);
    assert!(matches!(
        front().step(arrives(first.message, vec![])),
        FrontStep::Challenge(_)
    ));
    let mut list = configuration_messages(&request, Some("pw"));
    let first = list.remove(0);
    assert!(matches!(
        front().step(arrives(first.message, vec![])),
        FrontStep::Check(s) if s == b"pw".to_vec()
    ));
    // What is left is the configuration of a client without a secret.
    let plain = configuration_messages(&request, None);
    assert_eq!(list.len(), plain.len());
    for (a, b) in list.iter().zip(plain.iter()) {
        assert!(a.message == b.message && a.dirs == b.dirs);
    }
}

#[test]
fn wrong_secrets_are_refused() {
    assert!(after_check(true).is_none());
    let list = after_check(false).unwrap();
    assert_eq!(list[0].as_str().unwrap(), "secret invalid");
    assert_eq!(list[1].as_i32().unwrap(), 1);
}

#[test]
fn entries_are_found_by_name() {
    let file = "root:!:19000:0:99999:7:::\r\nada:$6$salt$hash:19000\n\nbob\neve::1";
    assert_eq!(
        stored_hash(file, "ada"),
        Some("$6$salt$hash".to_string())
    );
    assert_eq!(stored_hash(file, "root"), Some("!".to_string()));
    assert_eq!(stored_hash(file, "bob"), None);
    assert_eq!(stored_hash(file, "eve"), Some("".to_string()));
    assert_eq!(stored_hash(file, "ad"), None);
    assert_eq!(stored_hash("", "ada"), None);
    assert_eq!(stored_hash("ada:x\r\n", "ada"), Some("x".to_string()));
    assert_eq!(stored_hash("ada:x\r", "ada"), Some("x\r".to_string()));
    assert_eq!(
        stored_hash("ada:first:1\nada:second:1\n", "ada"),
        Some("first".to_string())
    );
}

#[test]
fn locked_entries_admit_nobody() {
    for hash in ["", "!", "!$6$x", "*", "*LK*"] {
        let file = format!("ada:{}:1\n", hash);
        assert_eq!(hash_for(Some(&file), "ada", b"pw"), None);
    }
    assert_eq!(hash_for(None, "ada", b"pw"), None);
    let file = "ada:$6$salt$hash:1\n";
    assert_eq!(
        hash_for(Some(file), "ada", b"pw"),
        Some("$6$salt$hash".to_string())
    );
    assert_eq!(hash_for(Some(file), "ada", b"p\0w"), None);
    assert_eq!(hash_for(Some("ada:$6\0$:1\n"), "ada", b"pw"), None);
    assert_eq!(hash_for(Some(file), "bob", b"pw"), None);
}

#[test]
fn passwords_fit_or_not() {
    assert!(admits("$6$salt$hash", Some(b"$6$salt$hash")));
    assert!(!admits("$6$salt$hash", Some(b"$6$salt$other")));
    assert!(!admits("$6$salt$hash", Some(b"$6$salt$has")));
    assert!(!admits("$6$salt$hash", None));
}
