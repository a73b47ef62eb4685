use jetsocat::framing::{chunk_from_read, finish_lines, feed_lines, read_event, READ_CAPACITY};
use jetsocat::session::{Action, Direction, Event, Outcome, Phase, Session};

fn active() -> Session {
    let mut s = Session::new();
    assert!(matches!(s.step(Event::Established), Action::StartRelay));
    s
}

fn sent_bytes(a: Action) -> Vec<u8> {
    match a {
        Action::Send(b) => b,
        other => panic!("expected a send, got {:?}", other),
    }
}

fn written_bytes(a: Action) -> Vec<u8> {
    match a {
        Action::Write(b) => b,
        other => panic!("expected a write, got {:?}", other),
    }
}

#[test]
fn chunk_is_truncated_to_bytes_read() {
    let mut buf = vec![0u8; READ_CAPACITY];
    buf[0] = b'a';
    buf[1] = b'b';
    buf[2] = b'c';
    assert_eq!(chunk_from_read(buf, Some(3)), Some(b"abc".to_vec()));
}

#[test]
fn full_buffer_is_one_chunk() {
    let buf = vec![7u8; READ_CAPACITY];
    assert_eq!(chunk_from_read(buf, Some(READ_CAPACITY)), Some(vec![7u8; READ_CAPACITY]));
}

#[test]
fn end_of_stream_and_error_end_the_source() {
    assert_eq!(chunk_from_read(vec![1, 2, 3], Some(0)), None);
    assert_eq!(chunk_from_read(vec![1, 2, 3], None), None);
    assert!(matches!(read_event(vec![1, 2, 3], Some(0)), Event::SourceEnded));
    assert!(matches!(read_event(vec![1, 2, 3], None), Event::SourceEnded));
}

#[test]
fn read_event_carries_the_chunk() {
    match read_event(b"xyz..".to_vec(), Some(3)) {
        Event::SourceChunk(c) => assert_eq!(c, b"xyz".to_vec()),
        other => panic!("unexpected {:?}", other),
    }
}

#[test]
fn feed_lines_strips_the_line_feed() {
    let mut pending = Vec::new();
    assert_eq!(feed_lines(&mut pending, b"abc\ndef"), vec![b"abc".to_vec()]);
    assert_eq!(pending, b"def".to_vec());
    assert_eq!(feed_lines(&mut pending, b""), Vec::<Vec<u8>>::new());
    assert_eq!(pending, b"def".to_vec());
}

#[test]
fn feed_lines_strips_carriage_return_before_line_feed() {
    let mut pending = Vec::new();
    let lines = feed_lines(&mut pending, b"a\r\nb\rc\n");
    assert_eq!(lines, vec![b"a".to_vec(), b"b\rc".to_vec()]);
    assert!(pending.is_empty());
}

#[test]
fn feed_lines_yields_empty_lines() {
    let mut pending = Vec::new();
    let lines = feed_lines(&mut pending, b"\n\nx");
    assert_eq!(lines, vec![Vec::new(), Vec::new()]);
    assert_eq!(pending, b"x".to_vec());
}

#[test]
fn feed_lines_joins_a_line_split_across_reads() {
    let mut pending = Vec::new();
    assert!(feed_lines(&mut pending, b"hel").is_empty());
    assert_eq!(feed_lines(&mut pending, b"lo\r"), Vec::<Vec<u8>>::new());
    assert_eq!(feed_lines(&mut pending, b"\nwor"), vec![b"hello".to_vec()]);
    assert_eq!(pending, b"wor".to_vec());
}

#[test]
fn finish_lines_forwards_the_unterminated_tail() {
    assert_eq!(finish_lines(b"tail".to_vec()), Some(b"tail".to_vec()));
    assert_eq!(finish_lines(Vec::new()), None);
}

#[test]
fn new_session_is_connecting_and_ignores_data() {
    let mut s = Session::new();
    assert_eq!(s.phase, Phase::Connecting);
    assert!(matches!(s.step(Event::SourceChunk(b"early".to_vec())), Action::Nothing));
    assert!(matches!(s.step(Event::MessageReceived(b"early".to_vec())), Action::Nothing));
    assert_eq!(s.phase, Phase::Connecting);
}

#[test]
fn chunks_become_one_message_each_in_order() {
    let mut s = active();
    let first = sent_bytes(s.step(Event::SourceChunk(b"abc".to_vec())));
    let second = sent_bytes(s.step(Event::SourceChunk(b"def".to_vec())));
    assert_eq!(first, b"abc".to_vec());
    assert_eq!(second, b"def".to_vec());
    let mut all = first;
    all.extend(second);
    assert_eq!(all, b"abcdef".to_vec());
}

#[test]
fn messages_are_written_in_arrival_order() {
    let mut s = active();
    let mut out = Vec::new();
    out.extend(written_bytes(s.step(Event::MessageReceived(vec![0x01, 0x02]))));
    out.extend(written_bytes(s.step(Event::MessageReceived(vec![0x03]))));
    assert_eq!(out, vec![0x01, 0x02, 0x03]);
}

#[test]
fn transport_close_ends_session_while_source_is_idle() {
    let mut s = active();
    match s.step(Event::TransportEnded) {
        Action::Stop(o) => assert_eq!(o, Outcome::Ended(Direction::Inbound)),
        other => panic!("unexpected {:?}", other),
    }
    assert!(s.is_terminated());
    assert!(matches!(s.step(Event::SourceChunk(b"late".to_vec())), Action::Nothing));
    assert!(matches!(s.step(Event::SourceEnded), Action::Nothing));
    assert_eq!(s.phase, Phase::Terminated(Outcome::Ended(Direction::Inbound)));
}

#[test]
fn first_finishing_direction_decides() {
    let mut s = active();
    assert!(matches!(s.step(Event::SendFailed), Action::Stop(Outcome::Ended(Direction::Outbound))));
    assert!(matches!(s.step(Event::SinkFailed), Action::Nothing));
    assert!(matches!(s.step(Event::MessageReceived(vec![9])), Action::Nothing));
    assert_eq!(s.phase, Phase::Terminated(Outcome::Ended(Direction::Outbound)));

    let mut s = active();
    assert!(matches!(s.step(Event::SourceEnded), Action::Stop(Outcome::Ended(Direction::Outbound))));
    let mut s = active();
    assert!(matches!(s.step(Event::SinkFailed), Action::Stop(Outcome::Ended(Direction::Inbound))));
}

#[test]
fn ended_session_succeeds() {
    assert!(Outcome::Ended(Direction::Inbound).succeeded());
    assert!(Outcome::Ended(Direction::Outbound).succeeded());
}

#[test]
fn stdio_relay_round_trip_through_echo_peer() {
    let mut s = active();
    let sent = sent_bytes(s.step(read_event(b"ping\0\0\0".to_vec(), Some(4))));
    assert_eq!(sent, b"ping".to_vec());
    // The echo peer sends the payload back verbatim.
    let out = written_bytes(s.step(Event::MessageReceived(sent)));
    assert_eq!(out, b"ping".to_vec());
}

#[test]
fn process_relay_feeds_and_echoes_a_line() {
    let mut s = active();
    let fed = written_bytes(s.step(Event::MessageReceived(b"hello\n".to_vec())));
    assert_eq!(fed, b"hello\n".to_vec());
    // The subprocess echoes the line back on its output.
    let mut pending = Vec::new();
    let mut lines = feed_lines(&mut pending, &fed);
    assert_eq!(lines, vec![b"hello".to_vec()]);
    let out = sent_bytes(s.step(Event::SourceChunk(lines.remove(0))));
    assert_eq!(out, b"hello".to_vec());
}

#[test]
fn establish_failure_aborts_without_relaying() {
    let mut s = Session::new();
    match s.step(Event::EstablishFailed) {
        Action::Stop(o) => {
            assert_eq!(o, Outcome::Aborted);
            assert!(!o.succeeded());
        }
        other => panic!("unexpected {:?}", other),
    }
    assert!(matches!(s.step(Event::Established), Action::Nothing));
    assert!(matches!(s.step(Event::SourceChunk(b"x".to_vec())), Action::Nothing));
    assert!(matches!(s.step(Event::MessageReceived(b"y".to_vec())), Action::Nothing));
    assert_eq!(s.phase, Phase::Terminated(Outcome::Aborted));
}
