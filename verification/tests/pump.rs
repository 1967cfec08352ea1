use capsudo::error::IoKind;
use capsudo::mux::{FrameHeader, OutFrame, Route, StreamTable};
use capsudo::pump::{
    after_message, after_poll, after_read, relay_data, End, PollOutcome, ReadOutcome, ReaderStep, Relay,
    RelayStep, Sink, StreamMsg, WriteCursor, WriteOutcome, WriteStep, WriterAction,
};
use capsudo::transport::FdDir;

#[test]
fn bytes_that_are_read_are_sent() {
    for end in [End::Delegated, End::StandIn] {
        match after_read(end, 4, ReadOutcome::Data(vec![1, 2])) {
            ReaderStep::Send(OutFrame::StreamData(4, data)) => assert_eq!(data, vec![1, 2]),
            _ => panic!("there are bytes"),
        }
        assert!(matches!(
            after_read(end, 4, ReadOutcome::Data(vec![])),
            ReaderStep::Last(OutFrame::StreamClose(4))
        ));
    }
}

#[test]
fn failed_reads_depend_on_the_descriptor() {
    let fail = |end, kind| after_read(end, 6, ReadOutcome::Failed(kind));
    assert!(matches!(
        fail(End::Delegated, IoKind::Interrupted),
        ReaderStep::Again
    ));
    assert!(matches!(
        fail(End::Delegated, IoKind::Other),
        ReaderStep::Last(OutFrame::StreamClose(6))
    ));
    assert!(matches!(
        fail(End::Delegated, IoKind::WouldBlock),
        ReaderStep::Wait
    ));
    assert!(matches!(
        fail(End::StandIn, IoKind::WouldBlock),
        ReaderStep::Wait
    ));
    assert!(matches!(
        fail(End::StandIn, IoKind::Interrupted),
        ReaderStep::Stop
    ));
    assert!(matches!(
        fail(End::StandIn, IoKind::Other),
        ReaderStep::Stop
    ));
}

#[test]
fn full_descriptor_loses_no_byte() {
    let data: Vec<u8> = (0..=255).collect();
    let mut c = WriteCursor::new(data.clone());
    let mut taken = Vec::new();
    let mut turn = 0;
    loop {
        turn += 1;
        let outcome = match turn % 4 {
            0 => WriteOutcome::Failed(IoKind::WouldBlock),
            1 => WriteOutcome::Failed(IoKind::Interrupted),
            _ => {
                let n = c.rest().len().min(7);
                taken.extend_from_slice(&c.rest()[..n]);
                WriteOutcome::Wrote(n)
            }
        };
        match c.advance(Sink::Delegated, outcome) {
            WriteStep::Done => break,
            WriteStep::Again => {}
            WriteStep::Wait => assert_eq!(outcome, WriteOutcome::Failed(IoKind::WouldBlock)),
            WriteStep::Failed(_) => panic!("nothing failed"),
        }
    }
    assert!(c.is_done());
    assert!(c.rest().is_empty());
    assert_eq!(taken, data);
}

#[test]
fn failed_writes_depend_on_the_sink() {
    let step = |sink, outcome| WriteCursor::new(vec![1, 2, 3]).advance(sink, outcome);
    assert_eq!(
        step(Sink::Delegated, WriteOutcome::Wrote(0)),
        WriteStep::Failed(IoKind::Other)
    );
    assert_eq!(
        step(Sink::Plain, WriteOutcome::Wrote(0)),
        WriteStep::Failed(IoKind::WriteZero)
    );
    assert_eq!(step(Sink::StandIn, WriteOutcome::Wrote(0)), WriteStep::Again);
    assert_eq!(step(Sink::StandIn, WriteOutcome::Wrote(3)), WriteStep::Done);
    assert_eq!(
        step(Sink::StandIn, WriteOutcome::Failed(IoKind::Interrupted)),
        WriteStep::Failed(IoKind::Interrupted)
    );
    assert_eq!(
        step(Sink::StandIn, WriteOutcome::Failed(IoKind::WouldBlock)),
        WriteStep::Wait
    );
    assert_eq!(
        step(Sink::Plain, WriteOutcome::Failed(IoKind::WouldBlock)),
        WriteStep::Failed(IoKind::WouldBlock)
    );
    assert_eq!(
        step(Sink::Plain, WriteOutcome::Failed(IoKind::Interrupted)),
        WriteStep::Again
    );
    assert_eq!(
        step(Sink::Delegated, WriteOutcome::Failed(IoKind::Other)),
        WriteStep::Failed(IoKind::Other)
    );
}

#[test]
fn pumps_write_until_the_stream_ends() {
    match after_message(End::Delegated, StreamMsg::Data(vec![5])) {
        WriterAction::Write(c) => assert_eq!(c.rest(), &[5]),
        WriterAction::Stop { .. } => panic!("there are bytes"),
    }
    assert!(matches!(
        after_message(End::Delegated, StreamMsg::Close),
        WriterAction::Stop { shut_down: false }
    ));
    assert!(matches!(
        after_message(End::StandIn, StreamMsg::Close),
        WriterAction::Stop { shut_down: true }
    ));
}

#[test]
fn relays_stop_when_cancelled() {
    let ready = |source, cancelled| PollOutcome::Ready { source, cancelled };
    assert_eq!(after_poll(Relay::ToTerminal, ready(true, true)), RelayStep::Stop);
    assert_eq!(after_poll(Relay::ToClient, ready(true, true)), RelayStep::Read);
    assert_eq!(after_poll(Relay::ToTerminal, ready(true, false)), RelayStep::Read);
    assert_eq!(after_poll(Relay::ToTerminal, ready(false, false)), RelayStep::Poll);
    assert_eq!(
        after_poll(Relay::ToTerminal, PollOutcome::Failed(IoKind::Interrupted)),
        RelayStep::Poll
    );
    assert_eq!(
        after_poll(Relay::ToTerminal, PollOutcome::Failed(IoKind::Other)),
        RelayStep::Stop
    );
}

#[test]
fn output_to_the_client_is_waited_for() {
    assert_eq!(Relay::ToClient.sink(), Sink::Delegated);
    assert_eq!(Relay::ToTerminal.sink(), Sink::Plain);
    assert!(!Relay::ToClient.cancellable());
    assert!(Relay::ToTerminal.cancellable());
    let mut c = relay_data(ReadOutcome::Data(vec![1, 2])).unwrap();
    let full = WriteOutcome::Failed(IoKind::WouldBlock);
    assert_eq!(c.advance(Relay::ToClient.sink(), full), WriteStep::Wait);
    assert_eq!(c.rest(), &[1, 2]);
}

#[test]
fn relays_stop_at_the_end_of_the_source() {
    assert_eq!(
        relay_data(ReadOutcome::Data(vec![1, 2])).unwrap().rest(),
        &[1, 2]
    );
    assert!(relay_data(ReadOutcome::Data(vec![])).is_none());
    assert!(relay_data(ReadOutcome::Failed(IoKind::Interrupted)).is_none());
}

#[test]
fn stream_carries_every_byte() {
    let reads = vec![
        ReadOutcome::Data(b"hel".to_vec()),
        ReadOutcome::Failed(IoKind::Interrupted),
        ReadOutcome::Failed(IoKind::WouldBlock),
        ReadOutcome::Data(b"lo\n".to_vec()),
        ReadOutcome::Data(vec![]),
    ];
    let mut table: StreamTable<u32> = StreamTable::new();
    table.register(2, FdDir::Write, 0);
    let mut given = Vec::new();
    let mut closed = false;
    for r in reads {
        let frame = match after_read(End::Delegated, 2, r) {
            ReaderStep::Send(f) | ReaderStep::Last(f) => f,
            ReaderStep::Again | ReaderStep::Wait => continue,
            ReaderStep::Stop => panic!("nothing failed"),
        };
        let bytes = frame.encode();
        let mut head = [0u8; 9];
        head.copy_from_slice(&bytes[..9]);
        let raw = FrameHeader::decode(&head).with_payload(bytes[9..].to_vec());
        match table.route(raw) {
            Route::Data(2, data) => given.extend(data),
            Route::Close(_) => closed = true,
            _ => panic!("the stream is open"),
        }
    }
    assert_eq!(given, b"hello\n".to_vec());
    assert!(closed);
    assert!(table.get(2).is_none());
}

#[test]
fn pieces_are_written_one_behind_the_other() {
    // Each write takes two bytes at most, and every other one has to wait.
    let pieces: [&[u8]; 4] = [b"hel", b"", b"lo wor", b"ld"];
    let mut written = Vec::new();
    let mut full = false;
    for piece in pieces {
        let mut c = match after_message(End::StandIn, StreamMsg::Data(piece.to_vec())) {
            WriterAction::Write(c) => c,
            WriterAction::Stop { .. } => panic!("there is a piece"),
        };
        while !c.is_done() {
            full = !full;
            let outcome = if full {
                WriteOutcome::Failed(IoKind::WouldBlock)
            } else {
                let n = c.rest().len().min(2);
                written.extend_from_slice(&c.rest()[..n]);
                WriteOutcome::Wrote(n)
            };
            assert!(!matches!(
                c.advance(Sink::StandIn, outcome),
                WriteStep::Failed(_)
            ));
        }
    }
    assert_eq!(written, b"hello world".to_vec());
}
