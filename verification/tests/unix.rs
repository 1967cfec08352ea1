use capsudo::error::{IoFailure, IoKind, TransportError};
use capsudo::proto::{FieldType, Header, Message};
use capsudo::pump::WriteOutcome;
use capsudo::transport::Incoming;
use capsudo::unix::{
    after_attach, changes_owner, complete_message, peer_context, removal_allows_bind, start_send,
    HeaderReader, HeaderStep, RecvOutcome, SendStep,
};

fn failure(kind: IoKind) -> IoFailure {
    IoFailure {
        kind,
        text: "failed".to_string(),
    }
}

/// Feeds the pieces of a header to a reader until it is settled.
fn read(pieces: Vec<RecvOutcome<u32>>) -> HeaderStep<u32> {
    let mut r = HeaderReader::start();
    for piece in pieces {
        match r.step(piece) {
            HeaderStep::More(next) => r = next,
            settled => return settled,
        }
    }
    HeaderStep::More(r)
}

#[test]
fn headers_arrive_in_any_pieces() {
    let bytes = Message::arg("hello").encode();
    let head = bytes[..5].to_vec();
    let block = || RecvOutcome::Failed(failure(IoKind::WouldBlock));
    let whole = vec![RecvOutcome::Got(head.clone(), vec![7])];
    let single = head
        .iter()
        .enumerate()
        .map(|(i, b)| RecvOutcome::Got(vec![*b], if i == 0 { vec![7] } else { vec![] }))
        .collect();
    let mixed = vec![
        block(),
        RecvOutcome::Got(head[..2].to_vec(), vec![7]),
        block(),
        block(),
        RecvOutcome::Got(head[2..].to_vec(), vec![]),
    ];
    for pieces in [whole, single, mixed] {
        match read(pieces) {
            HeaderStep::Complete(h, fds) => {
                assert_eq!(
                    h,
                    Header {
                        field_type: FieldType::Arg,
                        len: 5
                    }
                );
                assert_eq!(fds, vec![7]);
            }
            _ => panic!("the header is complete"),
        }
    }
}

#[test]
fn clean_end_is_told_from_a_broken_one() {
    assert!(matches!(
        read(vec![RecvOutcome::Got(vec![], vec![])]),
        HeaderStep::Closed
    ));
    assert!(matches!(
        read(vec![
            RecvOutcome::Got(vec![1], vec![]),
            RecvOutcome::Got(vec![], vec![])
        ]),
        HeaderStep::Failed(TransportError::UnexpectedEof)
    ));
}

#[test]
fn bad_headers_and_failures_are_told() {
    assert!(matches!(
        read(vec![RecvOutcome::Got(vec![99, 0, 0, 0, 0], vec![])]),
        HeaderStep::Failed(TransportError::Proto(_))
    ));
    assert!(matches!(
        read(vec![RecvOutcome::Failed(failure(IoKind::Other))]),
        HeaderStep::Failed(TransportError::Io(_))
    ));
    let r: HeaderReader<u32> = HeaderReader::start();
    assert_eq!(r.missing(), 5);
    match r.step(RecvOutcome::Got(vec![1, 2], vec![])) {
        HeaderStep::More(r) => assert_eq!(r.missing(), 3),
        _ => panic!("bytes are missing"),
    }
}

#[test]
fn payload_completes_a_message() {
    let h = Header {
        field_type: FieldType::Arg,
        len: 5,
    };
    match complete_message(h, vec![3u32], Ok(b"hello".to_vec())) {
        Incoming::Message(r) => {
            assert!(r.message == Message::arg("hello"));
            assert_eq!(r.fds, vec![3]);
        }
        _ => panic!("it is complete"),
    }
    assert!(matches!(
        complete_message::<u32>(h, vec![], Err(failure(IoKind::UnexpectedEof))),
        Incoming::Failed(TransportError::UnexpectedEof)
    ));
    assert!(matches!(
        complete_message::<u32>(h, vec![], Err(failure(IoKind::Other))),
        Incoming::Failed(TransportError::Io(_))
    ));
}

#[test]
fn descriptors_travel_with_the_first_bytes() {
    let m = Message::fds(3);
    let c = match start_send(&m, true) {
        SendStep::Attach(c) => c,
        _ => panic!("there are descriptors"),
    };
    assert_eq!(c.rest(), &m.encode()[..]);
    let c = match after_attach(c, WriteOutcome::Failed(IoKind::WouldBlock)) {
        SendStep::Attach(c) => c,
        _ => panic!("they were not sent"),
    };
    let c = match after_attach(c, WriteOutcome::Wrote(2)) {
        SendStep::Rest(c) => c,
        _ => panic!("bytes are left"),
    };
    assert_eq!(c.rest(), &m.encode()[2..]);
    let c = match start_send(&m, true) {
        SendStep::Attach(c) => c,
        _ => panic!("there are descriptors"),
    };
    assert!(matches!(
        after_attach(c, WriteOutcome::Wrote(9)),
        SendStep::Done
    ));
    let c = match start_send(&m, true) {
        SendStep::Attach(c) => c,
        _ => panic!("there are descriptors"),
    };
    assert!(matches!(
        after_attach(c, WriteOutcome::Failed(IoKind::Interrupted)),
        SendStep::Failed(IoKind::Interrupted)
    ));
    assert!(matches!(start_send(&m, false), SendStep::Rest(_)));
}

#[test]
fn security_contexts_lose_their_terminator() {
    let buf = b"label\0junk".to_vec();
    assert_eq!(peer_context(buf.clone(), 6), Some(b"label".to_vec()));
    assert_eq!(peer_context(buf.clone(), 5), Some(b"label".to_vec()));
    assert_eq!(peer_context(buf.clone(), 0), None);
    assert_eq!(peer_context(vec![0, 0], 1), None);
    assert_eq!(peer_context(vec![0, 0], 2), Some(vec![0]));
    assert_eq!(peer_context(buf.clone(), 4096), Some(buf));
}

#[test]
fn sockets_are_bound_over_nothing_only() {
    assert!(removal_allows_bind(IoKind::NotFound));
    assert!(!removal_allows_bind(IoKind::Other));
    assert!(!changes_owner(None, None));
    assert!(changes_owner(Some(0), None));
    assert!(changes_owner(None, Some(0)));
}

#[test]
fn messages_are_read_one_after_the_other() {
    let sent = [
        Message::env("A=1"),
        Message::end(),
        Message::exit(-1),
        Message::arg("x"),
    ];
    let mut stream: Vec<u8> = sent.iter().flat_map(|m| m.encode()).collect();
    for m in &sent {
        let mut r: HeaderReader<u32> = HeaderReader::start();
        let (header, fds) = loop {
            // One byte at a time.
            match r.step(RecvOutcome::Got(vec![stream.remove(0)], vec![])) {
                HeaderStep::More(next) => r = next,
                HeaderStep::Complete(h, fds) => break (h, fds),
                _ => panic!("there is a message"),
            }
        };
        let payload: Vec<u8> = stream.drain(..header.len as usize).collect();
        match complete_message(header, fds, Ok(payload)) {
            Incoming::Message(got) => assert!(got.message == *m),
            _ => panic!("it is complete"),
        }
    }
    assert!(stream.is_empty());
}
