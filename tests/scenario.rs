use benchmark::scenario::{
    frame_datagram, frame_stream, Action, Config, Consumer, Frame, Receipt, ScenarioError,
    Transport, WaitStrategy,
};
use benchmark::ITERATIONS;

fn msg(sent: u64, received: u64) -> Receipt {
    Receipt::Message { sent, received }
}

#[test]
fn standard_config() {
    let c = Config::standard();
    assert_eq!(c.iterations, ITERATIONS);
    assert_eq!(c.iterations, 99);
    assert_eq!(c.delay_millis, 100);
}

#[test]
fn stream_frames() {
    assert_eq!(frame_stream(&[]), Ok(Frame::EndOfStream));
    assert_eq!(frame_stream(&[0, 0, 0, 0, 0, 0, 1, 0]), Ok(Frame::Timestamp(256)));
    assert_eq!(frame_stream(&[1, 2, 3, 4]), Err(ScenarioError::PartialMessage(4)));
}

#[test]
fn datagram_frames() {
    assert_eq!(frame_datagram(&[0, 0, 0, 0, 0, 0, 0, 3]), Ok(3));
    assert_eq!(frame_datagram(&[]), Err(ScenarioError::WrongDatagramSize(0)));
    assert_eq!(frame_datagram(&[0; 9]), Err(ScenarioError::WrongDatagramSize(9)));
}

#[test]
fn three_in_process_messages_blocking() {
    let mut c = Consumer::new("in-process", Transport::InProcess, WaitStrategy::Blocking, 3);
    let base: u64 = 1_000_000_000;
    let mut sent = base;
    for i in 0..3u64 {
        assert_eq!(c.next_action(), Action::Wait);
        sent += 100_000_000;
        assert_eq!(c.step(msg(sent, sent + 40_000 + i)), Ok(()));
    }
    assert!(c.finished());
    assert_eq!(c.next_action(), Action::Report);
    let mut b = c.into_benchmark();
    assert_eq!(b.samples_slice(), &[40_000, 40_001, 40_002]);
    let r = b.report().unwrap();
    assert!(r.min <= r.median && r.median <= r.max);
    assert_eq!(r.median, 40_001);
}

#[test]
fn every_transport_delivers_the_configured_count_blocking() {
    for t in [Transport::InProcess, Transport::Stream, Transport::Datagram] {
        let mut c = Consumer::new("t", t, WaitStrategy::Blocking, 5);
        for i in 0..5u64 {
            assert_eq!(c.step(msg(10 * i, 10 * i + 1)), Ok(()));
        }
        assert!(c.finished());
        assert_eq!(c.benchmark().len(), 5);
        assert_eq!(c.step(msg(0, 1)), Err(ScenarioError::AlreadyFinished));
        assert_eq!(c.benchmark().len(), 5);
    }
}

#[test]
fn spinning_stream_stops_at_end_of_stream() {
    let mut c = Consumer::new("s", Transport::Stream, WaitStrategy::Spinning, 10);
    assert_eq!(c.next_action(), Action::Poll);
    assert_eq!(c.step(Receipt::NotReady), Ok(()));
    assert_eq!(c.next_action(), Action::Poll);
    assert_eq!(c.step(msg(5, 8)), Ok(()));
    assert_eq!(c.step(Receipt::NotReady), Ok(()));
    assert_eq!(c.step(Receipt::EndOfStream), Ok(()));
    assert!(c.finished());
    assert_eq!(c.next_action(), Action::Report);
    assert_eq!(c.benchmark().samples_slice(), &[3]);
    assert_eq!(c.step(Receipt::NotReady), Err(ScenarioError::AlreadyFinished));
}

#[test]
fn spinning_in_process_stops_at_end_of_stream() {
    let mut c = Consumer::new("m", Transport::InProcess, WaitStrategy::Spinning, 99);
    assert_eq!(c.step(Receipt::EndOfStream), Ok(()));
    assert_eq!(c.next_action(), Action::Report);
    assert_eq!(c.benchmark().len(), 0);
}

#[test]
fn spinning_datagram_stops_exactly_at_count() {
    let mut c = Consumer::new("d", Transport::Datagram, WaitStrategy::Spinning, 2);
    assert_eq!(c.step(Receipt::NotReady), Ok(()));
    assert_eq!(c.step(msg(1, 2)), Ok(()));
    assert!(!c.finished());
    assert_eq!(c.step(Receipt::NotReady), Ok(()));
    assert_eq!(c.next_action(), Action::Poll);
    assert_eq!(c.step(msg(3, 7)), Ok(()));
    assert!(c.finished());
    assert_eq!(c.next_action(), Action::Report);
    assert_eq!(c.benchmark().samples_slice(), &[1, 4]);
}

#[test]
fn datagram_has_no_end_of_stream() {
    let mut c = Consumer::new("d", Transport::Datagram, WaitStrategy::Blocking, 2);
    assert_eq!(c.step(Receipt::EndOfStream), Err(ScenarioError::UnexpectedEndOfStream));
    assert!(!c.finished());
}

#[test]
fn message_before_its_stamp_is_fatal() {
    let mut c = Consumer::new("m", Transport::InProcess, WaitStrategy::Blocking, 2);
    assert_eq!(c.step(msg(10, 9)), Err(ScenarioError::NegativeLatency));
    assert_eq!(c.benchmark().len(), 0);
    assert_eq!(c.step(msg(10, 10)), Ok(()));
    assert_eq!(c.benchmark().samples_slice(), &[0]);
}

#[test]
fn zero_target_is_finished_at_once() {
    let c = Consumer::new("z", Transport::Stream, WaitStrategy::Blocking, 0);
    assert!(c.finished());
    assert_eq!(c.next_action(), Action::Report);
}

#[test]
fn sample_count_never_exceeds_target() {
    let mut c = Consumer::new("b", Transport::Stream, WaitStrategy::Spinning, 4);
    for i in 0..10u64 {
        let _ = c.step(msg(i, i + 2));
        assert!(c.benchmark().len() <= 4);
    }
    assert_eq!(c.benchmark().len(), 4);
}
