use capsudo::client::{configuration_messages, ClientRequest};
use capsudo::daemon::{ConfigStep, Configuration, DaemonConfig};
use capsudo::mux::{
    control_frame, decode_fds, encode_fds, plan_send, receive_control, receive_fds, FrameHeader,
    OutFrame, RawFrame, Route, SendAction, Side, StreamIds, StreamTable,
};
use capsudo::proto::{FieldType, Message, SessionType};
use capsudo::transport::{FdDir, Incoming};

/// Reads one frame off a channel.
fn next_frame(channel: &mut Vec<u8>) -> Option<RawFrame> {
    if channel.len() < FrameHeader::SIZE {
        return None;
    }
    let mut head = [0u8; 9];
    head.copy_from_slice(&channel[..9]);
    let h = FrameHeader::decode(&head);
    let end = 9 + h.len as usize;
    if channel.len() < end {
        return None;
    }
    let payload = channel[9..end].to_vec();
    channel.drain(..end);
    Some(h.with_payload(payload))
}

fn raw(frame: OutFrame) -> RawFrame {
    let mut bytes = frame.encode();
    let f = next_frame(&mut bytes).unwrap();
    assert!(bytes.is_empty());
    f
}

/// Takes a plan apart. Every frame has to come before every start.
fn split(actions: Vec<SendAction>) -> (Vec<OutFrame>, Vec<(u32, FdDir)>) {
    let mut frames = Vec::new();
    let mut pumps = Vec::new();
    for a in actions {
        match a {
            SendAction::Queue(f) => {
                assert!(pumps.is_empty());
                frames.push(f);
            }
            SendAction::Start(id, dir) => pumps.push((id, dir)),
        }
    }
    (frames, pumps)
}

#[test]
fn sides_number_their_streams_apart() {
    let mut dialer = StreamIds::new(Side::Dialer);
    let mut listener = StreamIds::new(Side::Listener);
    for n in 0..100u32 {
        assert_eq!(dialer.alloc_id(), 2 * n);
        assert_eq!(listener.alloc_id(), 2 * n + 1);
    }
}

#[test]
fn frames_have_a_fixed_layout() {
    assert_eq!(
        OutFrame::StreamData(0x01020304, vec![9, 8]).encode(),
        vec![3, 4, 3, 2, 1, 2, 0, 0, 0, 9, 8]
    );
    assert_eq!(
        OutFrame::StreamClose(5).encode(),
        vec![4, 5, 0, 0, 0, 0, 0, 0, 0]
    );
    assert_eq!(
        OutFrame::Control(vec![7]).encode(),
        vec![1, 0, 0, 0, 0, 1, 0, 0, 0, 7]
    );
    assert_eq!(
        OutFrame::Carried(vec![7]).encode(),
        vec![5, 0, 0, 0, 0, 1, 0, 0, 0, 7]
    );
    assert_eq!(
        OutFrame::Fds(vec![]).encode(),
        vec![2, 0, 0, 0, 0, 0, 0, 0, 0]
    );
    let h = FrameHeader::decode(&[3, 4, 3, 2, 1, 2, 0, 0, 0]);
    assert_eq!(
        h,
        FrameHeader {
            kind: 3,
            id: 0x01020304,
            len: 2
        }
    );
}

#[test]
fn frames_are_read_in_order_and_a_cut_one_is_not_seen() {
    let mut channel = Vec::new();
    channel.extend(OutFrame::StreamData(2, vec![1]).encode());
    channel.extend(OutFrame::StreamClose(2).encode());
    let cut = OutFrame::Control(Message::end().encode()).encode();
    channel.extend(&cut[..cut.len() - 1]);
    let f = next_frame(&mut channel).unwrap();
    assert_eq!((f.kind, f.id, f.payload), (3, 2, vec![1]));
    let f = next_frame(&mut channel).unwrap();
    assert_eq!((f.kind, f.id, f.payload), (4, 2, vec![]));
    assert!(next_frame(&mut channel).is_none());
}

#[test]
fn announcements_roundtrip() {
    let list = vec![
        (0, FdDir::Read),
        (2, FdDir::Write),
        (0xffff_fffe, FdDir::ReadWrite),
    ];
    let bytes = encode_fds(&list);
    assert_eq!(
        bytes,
        vec![0, 0, 0, 0, 0, 2, 0, 0, 0, 1, 0xfe, 0xff, 0xff, 0xff, 2]
    );
    assert_eq!(decode_fds(&bytes), list);
}

#[test]
fn odd_announcements_are_passed_over() {
    let bytes = [1, 0, 0, 0, 9, 3, 0, 0, 0, 1, 5, 0, 0];
    assert_eq!(decode_fds(&bytes), vec![(3, FdDir::Write)]);
    assert!(decode_fds(&[]).is_empty());
}

#[test]
fn messages_cross_as_they_are() {
    let mut ids = StreamIds::new(Side::Dialer);
    let mut table: StreamTable<u32> = StreamTable::new();
    let (mut frames, pumps) = split(plan_send(&mut ids, &Message::arg("x"), &Vec::new()));
    assert!(pumps.is_empty());
    assert_eq!(frames.len(), 1);
    let frame = frames.remove(0);
    assert_eq!(frame.encode(), control_frame(&Message::arg("x")).encode());
    match table.route(raw(frame)) {
        Route::Deliver(m) => {
            let r = receive_control::<u32>(m);
            assert!(r.message == Message::arg("x"));
            assert!(r.fds.is_empty());
        }
        _ => panic!("it is a message"),
    }
    assert_eq!(ids.alloc_id(), 0);
}

#[test]
fn descriptors_become_streams() {
    let mut ids = StreamIds::new(Side::Listener);
    let dirs = vec![FdDir::Read, FdDir::Write, FdDir::ReadWrite];
    let (mut frames, pumps) = split(plan_send(&mut ids, &Message::fds(3), &dirs));
    assert_eq!(
        pumps,
        vec![
            (1, FdDir::Read),
            (3, FdDir::Write),
            (5, FdDir::ReadWrite)
        ]
    );
    assert_eq!(ids.alloc_id(), 7);
    // The announcement alone says all that the message says.
    assert_eq!(frames.len(), 1);
    let frame = frames.remove(0);
    assert!(matches!(&frame, OutFrame::Fds(buf) if *buf == encode_fds(&pumps)));
    let mut table: StreamTable<u32> = StreamTable::new();
    let (message, list) = match table.route(raw(frame)) {
        Route::Open(message, list) => (message, list),
        _ => panic!("it opens streams"),
    };
    assert_eq!(
        list,
        vec![
            (1, FdDir::Write),
            (3, FdDir::Read),
            (5, FdDir::ReadWrite)
        ]
    );
    let r = receive_fds(message, vec![70, 71, 72]);
    assert!(r.message == Message::fds(3));
    assert_eq!(r.fds, vec![70, 71, 72]);
}

#[test]
fn messages_with_descriptors_cross_as_they_are() {
    let mut ids = StreamIds::new(Side::Dialer);
    let mut table: StreamTable<u32> = StreamTable::new();
    for (n, m) in [
        (1usize, Message::arg("hello")),
        (2, Message::fds(7)),
        (1, Message::secret(b"pw")),
        (3, Message::fds(3)),
        (1, Message::end()),
    ] {
        let dirs = vec![FdDir::Write; n];
        let (frames, pumps) = split(plan_send(&mut ids, &m, &dirs));
        assert_eq!(pumps.len(), n);
        let count = frames.len();
        for (i, f) in frames.into_iter().enumerate() {
            match table.route(raw(f)) {
                Route::Hold => assert!(i + 1 < count),
                Route::Open(message, list) => {
                    assert_eq!(i + 1, count);
                    assert!(message == m);
                    assert_eq!(list.len(), n);
                    assert_eq!(list[0], (pumps[0].0, FdDir::Read));
                }
                _ => panic!("nothing else was sent"),
            }
        }
        // Nothing waits any more: what follows is delivered for itself.
        assert!(matches!(
            table.route(raw(control_frame(&Message::arg("next")))),
            Route::Deliver(next) if next == Message::arg("next")
        ));
    }
}

#[test]
fn other_frames_do_not_part_a_message_from_its_descriptors() {
    let mut ids = StreamIds::new(Side::Dialer);
    let mut table: StreamTable<u32> = StreamTable::new();
    table.register(9, FdDir::Write, 0);
    let (mut frames, _) = split(plan_send(
        &mut ids,
        &Message::arg("hello"),
        &vec![FdDir::Read],
    ));
    assert_eq!(frames.len(), 2);
    assert!(matches!(table.route(raw(frames.remove(0))), Route::Hold));
    assert!(matches!(
        table.route(raw(OutFrame::StreamData(9, vec![1]))),
        Route::Data(9, _)
    ));
    assert!(matches!(
        table.route(raw(control_frame(&Message::winsize([1, 2, 3, 4])))),
        Route::Deliver(_)
    ));
    assert!(matches!(
        table.route(raw(frames.remove(0))),
        Route::Open(m, _) if m == Message::arg("hello")
    ));
}

#[test]
fn data_goes_to_open_streams_only() {
    let mut table: StreamTable<&str> = StreamTable::new();
    table.register(1, FdDir::Write, "one");
    table.register(3, FdDir::Read, "three");
    table.register(5, FdDir::ReadWrite, "five");
    assert_eq!(table.get(1), Some(&"one"));
    assert_eq!(table.get(3), None);
    assert!(matches!(
        table.route(raw(OutFrame::StreamData(1, vec![1]))),
        Route::Data(1, d) if d == vec![1]
    ));
    assert!(matches!(
        table.route(raw(OutFrame::StreamData(3, vec![1]))),
        Route::Ignore
    ));
    assert!(matches!(
        table.route(raw(OutFrame::StreamClose(1))),
        Route::Close("one")
    ));
    assert!(matches!(
        table.route(raw(OutFrame::StreamData(1, vec![1]))),
        Route::Ignore
    ));
    assert!(matches!(
        table.route(raw(OutFrame::StreamClose(1))),
        Route::Ignore
    ));
    assert!(matches!(
        table.route(raw(OutFrame::StreamData(5, vec![]))),
        Route::Data(5, _)
    ));
}

#[test]
fn nonsense_is_passed_over() {
    let mut table: StreamTable<u32> = StreamTable::new();
    assert!(matches!(
        table.route(raw(OutFrame::Control(vec![1, 2, 3]))),
        Route::Ignore
    ));
    assert!(matches!(
        table.route(RawFrame {
            kind: 77,
            id: 0,
            payload: vec![]
        }),
        Route::Ignore
    ));
}

#[test]
fn whole_configuration_crosses_the_channel() {
    let request = ClientRequest {
        args: vec!["cat".to_string()],
        env: vec!["A=1".to_string()],
        session_type: SessionType::Interactive,
        winsize: Some([24, 80, 640, 480]),
    };
    let mut ids = StreamIds::new(Side::Dialer);
    let mut channel = Vec::new();
    for o in configuration_messages(&request, None) {
        for f in split(plan_send(&mut ids, &o.message, &o.dirs)).0 {
            channel.extend(f.encode());
        }
    }
    let config = DaemonConfig::default();
    let mut table: StreamTable<u32> = StreamTable::new();
    let mut state = Configuration::start(&config);
    let mut done = None;
    while let Some(f) = next_frame(&mut channel) {
        let received = match table.route(f) {
            Route::Deliver(m) => receive_control(m),
            Route::Open(message, list) => {
                for (id, dir) in &list {
                    table.register(*id, *dir, 100 + *id);
                }
                receive_fds(message, list.iter().map(|s| s.0).collect())
            }
            _ => panic!("nothing else was sent"),
        };
        match state.step(&config, Incoming::Message(received)) {
            ConfigStep::More(next) => state = next,
            ConfigStep::Complete(r) => {
                done = Some(r);
                break;
            }
            ConfigStep::Failed(e) => panic!("{}", e.message()),
        }
    }
    let r = done.unwrap();
    assert_eq!(r.argv, vec!["cat".to_string()]);
    assert_eq!(r.envp, vec!["A=1".to_string()]);
    assert_eq!(r.stdio, [0, 2, 4]);
    assert_eq!(r.winsize, [24, 80, 640, 480]);
    // The client reads its input, so the daemon's side takes data for that stream only.
    assert_eq!(table.get(0), Some(&100));
    assert_eq!(table.get(2), None);
    assert!(matches!(
        table.route(raw(OutFrame::StreamData(0, vec![104, 105]))),
        Route::Data(0, _)
    ));
    assert_eq!(Message::fds(3).field_type(), FieldType::Fd);
}

#[test]
fn directions_are_inverted() {
    for d in [FdDir::Read, FdDir::Write, FdDir::ReadWrite] {
        assert_eq!(d.invert().invert(), d);
        assert_eq!(d.reads(), d.invert().writes());
        assert_eq!(d.writes(), d.invert().reads());
    }
    assert!(FdDir::Read.reads() && !FdDir::Read.writes());
    assert!(FdDir::ReadWrite.reads() && FdDir::ReadWrite.writes());
}

#[test]
fn messages_are_delivered_at_once_whatever_their_id() {
    let mut table: StreamTable<u32> = StreamTable::new();
    for id in [0, 1, 3, 0xffff_ffff] {
        let frame = RawFrame {
            kind: 1,
            id,
            payload: Message::arg("x").encode(),
        };
        assert!(matches!(
            table.route(frame),
            Route::Deliver(m) if m == Message::arg("x")
        ));
    }
    // Streams that are announced alone come with their count.
    let list = vec![(0, FdDir::Read), (2, FdDir::Write)];
    assert!(matches!(
        table.route(raw(OutFrame::Fds(encode_fds(&list)))),
        Route::Open(m, _) if m == Message::fds(2)
    ));
    // What waits for descriptors has to be a message.
    assert!(matches!(
        table.route(raw(OutFrame::Carried(vec![1, 2]))),
        Route::Ignore
    ));
}
