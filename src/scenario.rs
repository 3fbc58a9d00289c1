//! The consumer side of one scenario as a state machine.
//!
//! The caller performs each receive on the transport and hands the outcome
//! to [`Consumer::step`] as plain values; [`Consumer::next_action`] says what
//! to do next. Times are nanoseconds on one clock shared by producer and
//! consumer.
use vstd::prelude::*;
use crate::codec::{decode, from_be, TIMESTAMP_LEN};
use crate::stats::Benchmark;

verus! {

/// Default pause between two sends, in milliseconds.
pub const DELAY_MILLIS: u64 = 100;

/// The parameters of a run.
#[derive(Debug, Clone, Copy, PartialEq, Eq, Structural)]
pub struct Config {
    /// Messages sent, and samples expected, per scenario.
    pub iterations: usize,
    /// Pause before each send, in milliseconds.
    pub delay_millis: u64,
}

impl Config {
    /// The standard run: `ITERATIONS` messages, `DELAY_MILLIS` apart.
    pub fn standard() -> (r: Config)
        ensures
            r.iterations == crate::ITERATIONS,
            r.delay_millis == DELAY_MILLIS,
    {
        Config { iterations: crate::ITERATIONS, delay_millis: DELAY_MILLIS }
    }
}

/// A point-to-point message-delivery primitive.
#[derive(Debug, Clone, Copy, PartialEq, Eq, Structural)]
pub enum Transport {
    /// An unbounded in-process queue; closes when the producer goes away.
    InProcess,
    /// A connection-oriented stream socket; a zero-length read closes it.
    Stream,
    /// A connectionless datagram socket; it has no end-of-stream signal.
    Datagram,
}

/// How the consumer waits for the next message.
#[derive(Debug, Clone, Copy, PartialEq, Eq, Structural)]
pub enum WaitStrategy {
    /// Suspend until data arrives or the transport closes.
    Blocking,
    /// Retry a non-blocking receive with no pause in between.
    Spinning,
}

/// What one receive attempt found.
#[derive(Debug, Clone, Copy, PartialEq, Eq, Structural)]
pub enum Receipt {
    /// Nothing is ready yet.
    NotReady,
    /// The producer side has closed.
    EndOfStream,
    /// A message stamped `sent` arrived at `received`.
    Message { sent: u64, received: u64 },
}

/// What the consumer does next.
#[derive(Debug, Clone, Copy, PartialEq, Eq, Structural)]
pub enum Action {
    /// Call the suspending receive.
    Wait,
    /// Call the non-blocking receive.
    Poll,
    /// Stop receiving and report.
    Report,
}

/// One framed read from a byte transport.
#[derive(Debug, Clone, Copy, PartialEq, Eq, Structural)]
pub enum Frame {
    /// The peer closed the stream.
    EndOfStream,
    /// A timestamp, as the 64-bit pattern that was sent.
    Timestamp(u64),
}

/// The fatal conditions of a scenario.
#[derive(Debug, Clone, Copy, PartialEq, Eq, Structural)]
pub enum ScenarioError {
    /// A stream read returned this many bytes, neither zero nor a whole message.
    PartialMessage(usize),
    /// A datagram of this many bytes arrived.
    WrongDatagramSize(usize),
    /// A transport without an end-of-stream signal reported one.
    UnexpectedEndOfStream,
    /// A message arrived before it was stamped.
    NegativeLatency,
    /// A receipt was handed to a consumer that had already finished.
    AlreadyFinished,
}

/// Whether the transport signals the end of the stream.
pub open spec fn has_end_of_stream(t: Transport) -> bool {
    t != Transport::Datagram
}

/// The action for a consumer that has (or has not) finished.
pub open spec fn action_of(strategy: WaitStrategy, finished: bool) -> Action {
    if finished {
        Action::Report
    } else if strategy == WaitStrategy::Blocking {
        Action::Wait
    } else {
        Action::Poll
    }
}

/// The state after one receipt: whether the consumer has finished, and the
/// samples. A message adds its latency and finishes the consumer once
/// `target` samples are held; the end of the stream finishes it.
pub open spec fn next_state(
    t: Transport,
    target: nat,
    finished: bool,
    samples: Seq<u64>,
    e: Receipt,
) -> Result<(bool, Seq<u64>), ScenarioError> {
    if finished {
        Err(ScenarioError::AlreadyFinished)
    } else {
        match e {
            Receipt::NotReady => Ok((false, samples)),
            Receipt::EndOfStream => if has_end_of_stream(t) {
                Ok((true, samples))
            } else {
                Err(ScenarioError::UnexpectedEndOfStream)
            },
            Receipt::Message { sent, received } => if received < sent {
                Err(ScenarioError::NegativeLatency)
            } else {
                let s = samples.push((received - sent) as u64);
                Ok((s.len() >= target, s))
            },
        }
    }
}

/// The state after a sequence of receipts, or the first error.
pub open spec fn run(
    t: Transport,
    target: nat,
    finished: bool,
    samples: Seq<u64>,
    es: Seq<Receipt>,
) -> Result<(bool, Seq<u64>), ScenarioError>
    decreases es.len(),
{
    if es.len() == 0 {
        Ok((finished, samples))
    } else {
        match next_state(t, target, finished, samples, es[0]) {
            Ok((f, s)) => run(t, target, f, s, es.drop_first()),
            Err(err) => Err(err),
        }
    }
}

/// The latencies that the messages among `es` carry, in order.
pub open spec fn latencies(es: Seq<Receipt>) -> Seq<u64>
    decreases es.len(),
{
    if es.len() == 0 {
        Seq::empty()
    } else {
        match es[0] {
            Receipt::Message { sent, received } => seq![(received - sent) as u64] + latencies(
                es.drop_first(),
            ),
            _ => latencies(es.drop_first()),
        }
    }
}

/// Whether `e` is a message that arrived no earlier than it was stamped.
pub open spec fn is_valid_message(e: Receipt) -> bool {
    match e {
        Receipt::Message { sent, received } => sent <= received,
        _ => false,
    }
}

/// The state invariant: never more than `target` samples, and fewer while
/// the consumer has not finished.
pub open spec fn bounded(target: nat, finished: bool, samples: Seq<u64>) -> bool {
    samples.len() <= target && (!finished ==> samples.len() < target)
}

/// Splits a stream read into a message or the end of the stream.
pub fn frame_stream(bytes: &[u8]) -> (r: Result<Frame, ScenarioError>)
    ensures
        bytes@.len() == 0 ==> r == Ok::<Frame, ScenarioError>(Frame::EndOfStream),
        bytes@.len() == 8 ==> r == Ok::<Frame, ScenarioError>(Frame::Timestamp(from_be(bytes@))),
        bytes@.len() != 0 && bytes@.len() != 8 ==> r == Err::<Frame, ScenarioError>(
            ScenarioError::PartialMessage(bytes@.len() as usize),
        ),
{
    if bytes.len() == 0 {
        Ok(Frame::EndOfStream)
    } else if bytes.len() != TIMESTAMP_LEN {
        Err(ScenarioError::PartialMessage(bytes.len()))
    } else {
        match decode(bytes) {
            Ok(bits) => Ok(Frame::Timestamp(bits)),
            Err(_) => Err(ScenarioError::PartialMessage(bytes.len())),
        }
    }
}

/// Reads one datagram as a timestamp.
pub fn frame_datagram(bytes: &[u8]) -> (r: Result<u64, ScenarioError>)
    ensures
        bytes@.len() == 8 ==> r == Ok::<u64, ScenarioError>(from_be(bytes@)),
        bytes@.len() != 8 ==> r == Err::<u64, ScenarioError>(
            ScenarioError::WrongDatagramSize(bytes@.len() as usize),
        ),
{
    if bytes.len() != TIMESTAMP_LEN {
        Err(ScenarioError::WrongDatagramSize(bytes.len()))
    } else {
        match decode(bytes) {
            Ok(bits) => Ok(bits),
            Err(_) => Err(ScenarioError::WrongDatagramSize(bytes.len())),
        }
    }
}

/// The consumer of one scenario, with the samples it has collected.
pub struct Consumer {
    transport: Transport,
    strategy: WaitStrategy,
    target: usize,
    finished: bool,
    bench: Benchmark,
}

impl Consumer {
    pub closed spec fn transport(&self) -> Transport {
        self.transport
    }

    pub closed spec fn strategy(&self) -> WaitStrategy {
        self.strategy
    }

    pub closed spec fn target(&self) -> nat {
        self.target as nat
    }

    pub closed spec fn is_finished(&self) -> bool {
        self.finished
    }

    pub closed spec fn samples(&self) -> Seq<u64> {
        self.bench.samples()
    }

    pub closed spec fn name_view(&self) -> Seq<char> {
        self.bench.name_view()
    }

    /// The state invariant holds.
    pub open spec fn wf(&self) -> bool {
        bounded(self.target(), self.is_finished(), self.samples())
    }

    /// A consumer named `name` that expects `target` messages. It has finished
    /// already when `target` is zero.
    pub fn new(name: &str, transport: Transport, strategy: WaitStrategy, target: usize) -> (r:
        Consumer)
        ensures
            r.wf(),
            r.name_view() == name@,
            r.transport() == transport,
            r.strategy() == strategy,
            r.target() == target,
            r.is_finished() == (target == 0),
            r.samples() == Seq::<u64>::empty(),
    {
        Consumer { transport, strategy, target, finished: target == 0, bench: Benchmark::new(name) }
    }

    /// What to do next: report once finished; otherwise wait or poll, as the
    /// strategy says.
    pub fn next_action(&self) -> (r: Action)
        ensures
            r == action_of(self.strategy(), self.is_finished()),
    {
        if self.finished {
            Action::Report
        } else {
            match self.strategy {
                WaitStrategy::Blocking => Action::Wait,
                WaitStrategy::Spinning => Action::Poll,
            }
        }
    }

    /// Takes in the outcome of one receive. On an error nothing changes.
    pub fn step(&mut self, e: Receipt) -> (r: Result<(), ScenarioError>)
        requires
            old(self).wf(),
        ensures
            final(self).wf(),
            final(self).transport() == old(self).transport(),
            final(self).strategy() == old(self).strategy(),
            final(self).target() == old(self).target(),
            final(self).name_view() == old(self).name_view(),
            match next_state(
                old(self).transport(),
                old(self).target(),
                old(self).is_finished(),
                old(self).samples(),
                e,
            ) {
                Ok((f, s)) => r is Ok && final(self).is_finished() == f && final(self).samples()
                    == s,
                Err(err) => r == Err::<(), ScenarioError>(err) && final(self).is_finished()
                    == old(self).is_finished() && final(self).samples() == old(self).samples(),
            },
    {
        if self.finished {
            return Err(ScenarioError::AlreadyFinished);
        }
        match e {
            Receipt::NotReady => Ok(()),
            Receipt::EndOfStream => {
                match self.transport {
                    Transport::Datagram => Err(ScenarioError::UnexpectedEndOfStream),
                    _ => {
                        self.finished = true;
                        Ok(())
                    },
                }
            },
            Receipt::Message { sent, received } => {
                if received < sent {
                    return Err(ScenarioError::NegativeLatency);
                }
                self.bench.add(received - sent);
                self.finished = self.bench.len() >= self.target;
                Ok(())
            },
        }
    }

    /// The samples collected so far.
    pub fn benchmark(&self) -> (r: &Benchmark)
        ensures
            r.samples() == self.samples(),
            r.name_view() == self.name_view(),
    {
        &self.bench
    }

    /// Gives up the consumer for its samples.
    pub fn into_benchmark(self) -> (r: Benchmark)
        ensures
            r.samples() == self.samples(),
            r.name_view() == self.name_view(),
    {
        self.bench
    }

    /// Whether the consumer has finished.
    pub fn finished(&self) -> (r: bool)
        ensures
            r == self.is_finished(),
    {
        self.finished
    }
}

/// Every state reached from a bounded state is bounded: the consumer never
/// holds more samples than it expects.
pub proof fn lemma_run_bounded(
    t: Transport,
    target: nat,
    finished: bool,
    samples: Seq<u64>,
    es: Seq<Receipt>,
)
    requires
        bounded(target, finished, samples),
    ensures
        run(t, target, finished, samples, es) matches Ok((f, s)) ==> bounded(target, f, s),
    decreases es.len(),
{
    if es.len() > 0 {
        if let Ok((f, s)) = next_state(t, target, finished, samples, es[0]) {
            lemma_run_bounded(t, target, f, s, es.drop_first());
        }
    }
}

/// The samples of a run are those held before, followed by the latency of
/// each message received, one for one and in the order they were received.
pub proof fn lemma_run_in_order(
    t: Transport,
    target: nat,
    finished: bool,
    samples: Seq<u64>,
    es: Seq<Receipt>,
)
    ensures
        run(t, target, finished, samples, es) matches Ok((f, s)) ==> s == samples + latencies(es),
    decreases es.len(),
{
    if es.len() == 0 {
        assert(samples + latencies(es) =~= samples);
    } else {
        if let Ok((f, s)) = next_state(t, target, finished, samples, es[0]) {
            lemma_run_in_order(t, target, f, s, es.drop_first());
            if let Receipt::Message { sent, received } = es[0] {
                assert(samples.push((received - sent) as u64) + latencies(es.drop_first())
                    =~= samples + latencies(es));
            }
        }
    }
}

/// Whatever the transport, a consumer that expects `target` messages and is
/// handed exactly that many finishes, holding one sample per message.
pub proof fn lemma_delivers_all(t: Transport, target: nat, es: Seq<Receipt>)
    requires
        es.len() == target,
        forall|i: int| 0 <= i < es.len() ==> is_valid_message(#[trigger] es[i]),
    ensures
        run(t, target, target == 0, Seq::empty(), es) == Ok::<(bool, Seq<u64>), ScenarioError>(
            (true, latencies(es)),
        ),
        latencies(es).len() == target,
{
    lemma_delivers_rest(t, target, Seq::empty(), es);
    assert(Seq::<u64>::empty() + latencies(es) =~= latencies(es));
}

proof fn lemma_delivers_rest(t: Transport, target: nat, samples: Seq<u64>, es: Seq<Receipt>)
    requires
        samples.len() + es.len() == target,
        forall|i: int| 0 <= i < es.len() ==> is_valid_message(#[trigger] es[i]),
    ensures
        run(t, target, samples.len() == target, samples, es) == Ok::<
            (bool, Seq<u64>),
            ScenarioError,
        >((true, samples + latencies(es))),
        latencies(es).len() == es.len(),
    decreases es.len(),
{
    if es.len() == 0 {
        assert(samples + latencies(es) =~= samples);
    } else {
        assert(is_valid_message(es[0]));
        if let Receipt::Message { sent, received } = es[0] {
            let s = samples.push((received - sent) as u64);
            assert forall|i: int| 0 <= i < es.drop_first().len() implies is_valid_message(
                #[trigger] es.drop_first()[i],
            ) by {
                assert(es.drop_first()[i] == es[i + 1]);
            }
            lemma_delivers_rest(t, target, s, es.drop_first());
            assert(s + latencies(es.drop_first()) =~= samples + latencies(es));
        }
    }
}

/// On a transport that signals the end of the stream, that signal finishes an
/// unfinished consumer at once, with its samples kept, and its next action is
/// to report, whatever the strategy.
pub proof fn lemma_end_of_stream_stops(
    t: Transport,
    strategy: WaitStrategy,
    target: nat,
    samples: Seq<u64>,
)
    requires
        has_end_of_stream(t),
    ensures
        next_state(t, target, false, samples, Receipt::EndOfStream) == Ok::<
            (bool, Seq<u64>),
            ScenarioError,
        >((true, samples)),
        action_of(strategy, true) == Action::Report,
{
}

/// On the datagram transport, which has no end-of-stream signal, a consumer
/// has finished exactly when it holds `target` samples: each state that a run
/// from a fresh consumer reaches is finished if and only if that many messages
/// were received.
pub proof fn lemma_datagram_stops_at_count(target: nat, es: Seq<Receipt>)
    requires
        target > 0,
    ensures
        run(Transport::Datagram, target, false, Seq::empty(), es) matches Ok((f, s)) ==> (f
            <==> s.len() == target),
{
    lemma_datagram_count_rest(target, false, Seq::empty(), es);
}

proof fn lemma_datagram_count_rest(
    target: nat,
    finished: bool,
    samples: Seq<u64>,
    es: Seq<Receipt>,
)
    requires
        bounded(target, finished, samples),
        finished <==> samples.len() == target,
    ensures
        run(Transport::Datagram, target, finished, samples, es) matches Ok((f, s)) ==> (f
            <==> s.len() == target),
    decreases es.len(),
{
    if es.len() > 0 {
        if let Ok((f, s)) = next_state(Transport::Datagram, target, finished, samples, es[0]) {
            lemma_datagram_count_rest(target, f, s, es.drop_first());
        }
    }
}

} // verus!
