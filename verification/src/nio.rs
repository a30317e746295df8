//! Keyboard input that never blocks for longer than the caller allows.
//!
//! A background producer reads the input device and sends each byte, each end
//! of stream and each device failure as an [`Event`] over a channel. [`Stdin`]
//! is the consuming end: every read takes events off the channel in order and
//! stops at a record terminator, at a full buffer, at the end of the stream, at
//! a failure, or when no further event arrives in time.
//!
//! What one receive attempt yields is a [`Polled`]. The rules that turn a
//! sequence of such outcomes into the result of a read are the spec functions
//! [`begin`], [`feed`] and [`replay`]; each read states that its result is the
//! one that these rules give for the outcomes it received.

use vstd::prelude::*;

use std::sync::mpsc::Receiver;
use std::sync::mpsc::RecvTimeoutError;
use std::sync::mpsc::TryRecvError;
use std::time::Duration;
use std::time::Instant;

use crate::error::Error;

verus! {

/// Declares `std::sync::mpsc::Receiver`, the consuming end of the channel.
#[verifier::external_type_specification]
#[verifier::external_body]
#[verifier::reject_recursive_types(T)]
pub struct ExReceiver<T>(Receiver<T>);

/// Declares `std::time::Instant`, a reading of the monotonic clock.
#[verifier::external_type_specification]
#[verifier::external_body]
pub struct ExInstant(Instant);

/// What the background producer reports, in the order in which it happened.
#[derive(Debug)]
pub enum Event {
    /// One byte read from the device.
    Byte(u8),
    /// The device reported the end of its stream.
    EndOfStream,
    /// The device failed; the stream goes on after it.
    Error(std::io::Error),
}

/// The event that stands for the result of one read of a single byte from the
/// device: the byte, the end of the stream where there was none, or the
/// failure.
pub fn event_of(read: Result<Option<u8>, std::io::Error>) -> (event: Event)
    ensures
        event == match read {
            Ok(Some(byte)) => Event::Byte(byte),
            Ok(None) => Event::EndOfStream,
            Err(cause) => Event::Error(cause),
        },
{
    match read {
        Ok(Some(byte)) => Event::Byte(byte),
        Ok(None) => Event::EndOfStream,
        Err(cause) => Event::Error(cause),
    }
}

/// The outcome of one attempt to take an event off the channel.
#[derive(Debug)]
pub enum Polled {
    /// The next event in line.
    Event(Event),
    /// No event was there in time.
    Idle,
    /// The channel is empty and its producer is gone.
    Closed,
}

/// What a read does with one outcome.
#[derive(Debug)]
pub enum Verdict {
    /// Hand this byte to the caller and go on.
    Copy(u8),
    /// Stop and report the bytes handed over so far.
    Stop,
    /// Fail with this error; nothing was handed over.
    Fail(Error),
}

/// What a reader remembers between two reads.
pub struct Backlog {
    /// The failure that followed the bytes of the last read, owed to the next.
    pub pending: Option<Error>,
    /// Whether the loss of the producer has been reported.
    pub hung_up: bool,
}

impl Backlog {
    /// The decision taken on one outcome, and what the reader remembers after
    /// it. `progressed` says whether the read has handed over a byte already,
    /// `patient` whether it waits for events (and so owes the caller a byte or
    /// a reason).
    pub open spec fn judge(self, polled: Polled, progressed: bool, patient: bool) -> (
        Verdict,
        Backlog,
    ) {
        match polled {
            Polled::Event(Event::Byte(byte)) => (Verdict::Copy(byte), self),
            Polled::Event(Event::EndOfStream) => (Verdict::Stop, self),
            Polled::Event(Event::Error(cause)) => if progressed {
                (Verdict::Stop, Backlog { pending: Some(Error::Device(cause)), ..self })
            } else {
                (Verdict::Fail(Error::Device(cause)), self)
            },
            Polled::Idle => if progressed || !patient {
                (Verdict::Stop, self)
            } else {
                (Verdict::Fail(Error::TimedOut), self)
            },
            Polled::Closed => if self.hung_up {
                (Verdict::Stop, self)
            } else if progressed {
                (Verdict::Stop, Backlog { pending: Some(Error::Disconnected), hung_up: true })
            } else {
                (Verdict::Fail(Error::Disconnected), Backlog { hung_up: true, ..self })
            },
        }
    }
}

/// How a read ends, if it has.
#[derive(Debug)]
pub enum Halt {
    /// The read takes further outcomes.
    Running,
    /// The read returns the count of its bytes.
    Stopped,
    /// The read returns this error.
    Failed(Error),
}

/// The limits of one read.
pub struct Rules {
    /// The most bytes that the read may hand over.
    pub cap: nat,
    /// The byte after which the read stops.
    pub stop: u8,
    /// Whether the read waits for events.
    pub patient: bool,
}

/// A read in progress or at its end.
pub struct Run {
    /// What the reader remembers.
    pub state: Backlog,
    /// The bytes handed over so far, in order.
    pub bytes: Seq<u8>,
    /// The number of outcomes taken so far.
    pub polls: nat,
    /// Whether and how the read has ended.
    pub halt: Halt,
}

impl Run {
    /// What the read returns once it has ended.
    pub open spec fn outcome(self) -> Result<usize, Error> {
        match self.halt {
            Halt::Failed(error) => Err(error),
            _ => Ok(self.bytes.len() as usize),
        }
    }
}

/// A read before its first outcome. An error owed from the read before is
/// returned at once and forgotten; a read into no room stops at once.
pub open spec fn begin(state: Backlog, rules: Rules) -> Run {
    match state.pending {
        Some(error) => Run {
            state: Backlog { pending: None, ..state },
            bytes: Seq::empty(),
            polls: 0,
            halt: Halt::Failed(error),
        },
        None => Run {
            state,
            bytes: Seq::empty(),
            polls: 0,
            halt: if rules.cap == 0 {
                Halt::Stopped
            } else {
                Halt::Running
            },
        },
    }
}

/// The read after one more outcome. A read that has ended takes none.
pub open spec fn feed(run: Run, polled: Polled, rules: Rules) -> Run {
    if run.halt is Running {
        let (verdict, state) = run.state.judge(polled, run.bytes.len() > 0, rules.patient);
        match verdict {
            Verdict::Copy(byte) => Run {
                state,
                bytes: run.bytes.push(byte),
                polls: run.polls + 1,
                halt: if byte == rules.stop || run.bytes.len() + 1 >= rules.cap {
                    Halt::Stopped
                } else {
                    Halt::Running
                },
            },
            Verdict::Stop => Run { state, polls: run.polls + 1, halt: Halt::Stopped, ..run },
            Verdict::Fail(error) => Run {
                state,
                polls: run.polls + 1,
                halt: Halt::Failed(error),
                ..run
            },
        }
    } else {
        run
    }
}

/// The read after a sequence of outcomes, taken in order.
pub open spec fn replay(start: Run, trace: Seq<Polled>, rules: Rules) -> Run
    decreases trace.len(),
{
    if trace.len() == 0 {
        start
    } else {
        feed(replay(start, trace.drop_last(), rules), trace.last(), rules)
    }
}

/// The bytes among a sequence of outcomes, in order.
pub open spec fn bytes_of(trace: Seq<Polled>) -> Seq<u8>
    decreases trace.len(),
{
    if trace.len() == 0 {
        Seq::empty()
    } else {
        match trace.last() {
            Polled::Event(Event::Byte(byte)) => bytes_of(trace.drop_last()).push(byte),
            _ => bytes_of(trace.drop_last()),
        }
    }
}

/// Whether a read that started from `before` under `rules`, received exactly
/// the outcomes of `trace` and ended, leaves the reader in `after`, hands over
/// `bytes` and returns `result`.
pub open spec fn accounts_for(
    before: Backlog,
    rules: Rules,
    trace: Seq<Polled>,
    after: Backlog,
    bytes: Seq<u8>,
    result: Result<usize, Error>,
) -> bool {
    let run = replay(begin(before, rules), trace, rules);
    &&& run.polls == trace.len()
    &&& !(run.halt is Running)
    &&& run.state == after
    &&& run.bytes == bytes
    &&& run.outcome() == result
}

/// How many bytes a read has handed over: its count, or none where it failed.
pub open spec fn count_of(result: Result<usize, Error>) -> int {
    match result {
        Ok(count) => count as int,
        Err(_) => 0,
    }
}

/// Whether `result` and the change from `old_buf` to `new_buf` are those of a
/// read into a buffer of fixed length: the bytes handed over lie at its front,
/// the rest is as it was, and some sequence of outcomes accounts for it all.
pub open spec fn fills(
    before: Backlog,
    rules: Rules,
    after: Backlog,
    old_buf: Seq<u8>,
    new_buf: Seq<u8>,
    result: Result<usize, Error>,
) -> bool {
    &&& new_buf.len() == old_buf.len()
    &&& count_of(result) <= old_buf.len()
    &&& forall|i: int| count_of(result) <= i < old_buf.len() ==> new_buf[i] == old_buf[i]
    &&& exists|trace: Seq<Polled>|
        #[trigger] accounts_for(
            before,
            rules,
            trace,
            after,
            new_buf.take(count_of(result)),
            result,
        )
}

/// Whether `result` and the change from `old_buf` to `new_buf` are those of a
/// read that appends: what was there stays, the bytes handed over follow it,
/// and some sequence of outcomes accounts for it all.
pub open spec fn extends(
    before: Backlog,
    rules: Rules,
    after: Backlog,
    old_buf: Seq<u8>,
    new_buf: Seq<u8>,
    result: Result<usize, Error>,
) -> bool {
    &&& new_buf.len() == old_buf.len() + count_of(result)
    &&& new_buf.take(old_buf.len() as int) == old_buf
    &&& exists|trace: Seq<Polled>|
        #[trigger] accounts_for(
            before,
            rules,
            trace,
            after,
            new_buf.skip(old_buf.len() as int),
            result,
        )
}

/// The limits of `read`: a newline ends it, and it does not wait.
pub open spec fn read_rules(room: nat) -> Rules {
    Rules { cap: room, stop: NEWLINE, patient: false }
}

/// The limits of `read_timeout`: a newline ends it, and it waits.
pub open spec fn read_timeout_rules(room: nat) -> Rules {
    Rules { cap: room, stop: NEWLINE, patient: true }
}

/// The limits of `read_timeout_until` on a buffer that holds `len` bytes: the
/// delimiter ends it, it waits, and it appends for as long as a length fits.
pub open spec fn read_until_rules(delimiter: u8, len: nat) -> Rules {
    Rules { cap: (usize::MAX - len) as nat, stop: delimiter, patient: true }
}

/// Appending one outcome to a trace feeds it to the read that the trace gave.
pub proof fn lemma_replay_push(start: Run, trace: Seq<Polled>, polled: Polled, rules: Rules)
    ensures
        replay(start, trace.push(polled), rules) == feed(
            replay(start, trace, rules),
            polled,
            rules,
        ),
{
    assert(trace.push(polled).drop_last() =~= trace);
}

/// `Instant::now`: reads the monotonic clock. Nothing is claimed of the reading.
#[verifier::external_body]
fn now() -> Instant {
    Instant::now()
}

/// The time that `Instant::saturating_duration_since` finds between two
/// readings of the clock.
pub uninterp spec fn time_between(start: Instant, now: Instant) -> Duration;

/// The time that `Duration::saturating_sub` leaves of a span after another.
pub uninterp spec fn time_left(timeout: Duration, spent: Duration) -> Duration;

/// `Instant::saturating_duration_since`: the time from `start` to `now`, or zero
/// where `now` is the earlier. The result is the one named `time_between`: it
/// depends on the two readings alone.
#[verifier::external_body]
fn since(start: &Instant, now: &Instant) -> (spent: Duration)
    ensures
        spent == time_between(*start, *now),
{
    now.saturating_duration_since(*start)
}

/// `Duration::saturating_sub`: what is left of `timeout` after `spent`, or zero
/// where more was spent. The result is the one named `time_left`: it depends
/// on the two spans alone.
#[verifier::external_body]
fn left_of(timeout: Duration, spent: Duration) -> (left: Duration)
    ensures
        left == time_left(timeout, spent),
{
    timeout.saturating_sub(spent)
}

/// `Receiver::recv_timeout`: waits up to `wait` for the next event. An event
/// already in line is returned whatever `wait` is. Nothing is claimed of which
/// outcome comes back: that depends on the producer and on the clock.
#[verifier::external_body]
fn receive_within(receiver: &Receiver<Event>, wait: Duration) -> Polled {
    match receiver.recv_timeout(wait) {
        Ok(event) => Polled::Event(event),
        Err(RecvTimeoutError::Timeout) => Polled::Idle,
        Err(RecvTimeoutError::Disconnected) => Polled::Closed,
    }
}

/// `Receiver::try_recv`: takes the next event if one is in line, without
/// waiting. Nothing is claimed of which outcome comes back.
#[verifier::external_body]
fn receive_ready(receiver: &Receiver<Event>) -> Polled {
    match receiver.try_recv() {
        Ok(event) => Polled::Event(event),
        Err(TryRecvError::Empty) => Polled::Idle,
        Err(TryRecvError::Disconnected) => Polled::Closed,
    }
}

/// The deadline of one read: when it began and how long it may take.
struct Clock {
    start: Instant,
    timeout: Duration,
}

impl Clock {
    /// Starts the clock of a read that may take `timeout`: the clock keeps
    /// that span, and counts from the reading taken now.
    fn start(timeout: Duration) -> (clock: Clock)
        ensures
            clock.timeout == timeout,
    {
        Clock { start: now(), timeout }
    }

    /// The time left until the deadline, zero once it has passed: what is left
    /// of the clock's span after the time between its start and a reading
    /// taken now.
    fn left(&self) -> (left: Duration)
        ensures
            exists|current: Instant| left == #[trigger] time_left(
                self.timeout,
                time_between(self.start, current),
            ),
    {
        let current = now();
        left_of(self.timeout, since(&self.start, &current))
    }
}

/// The byte that ends a record in `read` and `read_timeout`.
pub const NEWLINE: u8 = 0x0A;

/// The consuming end of the keyboard's event channel.
pub struct Stdin {
    receiver: Receiver<Event>,
    last_err: Option<Error>,
    hung_up: bool,
}

impl View for Stdin {
    type V = Backlog;

    closed spec fn view(&self) -> Backlog {
        Backlog { pending: self.last_err, hung_up: self.hung_up }
    }
}

/// Wraps the consuming end of an event channel: the reader takes its events
/// from that channel, owes no error and has not seen the producer go.
pub fn stdin(receiver: Receiver<Event>) -> (reader: Stdin)
    ensures
        reader.channel() == receiver,
        reader@ == (Backlog { pending: None, hung_up: false }),
{
    Stdin { receiver, last_err: None, hung_up: false }
}

impl Stdin {
    /// The channel that the reader takes its events from.
    pub closed spec fn channel(&self) -> Receiver<Event> {
        self.receiver
    }

    /// Whether an error is owed to the next read.
    pub fn has_pending_error(&self) -> (owed: bool)
        ensures
            owed == self@.pending.is_some(),
    {
        self.last_err.is_some()
    }

    /// Decides what a read does with one outcome, and records what the reader
    /// has to remember of it: a failure after progress is kept for the next
    /// read, the loss of the producer is reported once.
    pub fn settle(&mut self, polled: Polled, progressed: bool, patient: bool) -> (verdict: Verdict)
        ensures
            (verdict, final(self)@) == old(self)@.judge(polled, progressed, patient),
            final(self).channel() == old(self).channel(),
    {
        match polled {
            Polled::Event(Event::Byte(byte)) => Verdict::Copy(byte),
            Polled::Event(Event::EndOfStream) => Verdict::Stop,
            Polled::Event(Event::Error(cause)) => {
                if progressed {
                    self.last_err = Some(Error::Device(cause));
                    Verdict::Stop
                } else {
                    Verdict::Fail(Error::Device(cause))
                }
            },
            Polled::Idle => {
                if progressed || !patient {
                    Verdict::Stop
                } else {
                    Verdict::Fail(Error::TimedOut)
                }
            },
            Polled::Closed => {
                if self.hung_up {
                    Verdict::Stop
                } else {
                    self.hung_up = true;
                    if progressed {
                        self.last_err = Some(Error::Disconnected);
                        Verdict::Stop
                    } else {
                        Verdict::Fail(Error::Disconnected)
                    }
                }
            },
        }
    }

    /// Takes one outcome off the channel: with a clock, waiting until its
    /// deadline; without one, only what is already in line.
    fn poll(&self, clock: &Option<Clock>) -> Polled {
        match clock {
            Some(clock) => receive_within(&self.receiver, clock.left()),
            None => receive_ready(&self.receiver),
        }
    }

    /// Takes one outcome into a read that fills `buf` and has handed over
    /// `count` bytes so far: a byte is stored behind them and counted, and the
    /// read ends after the stop byte and at a full buffer; any other outcome
    /// is settled as `settle` says. The result says whether and how the read
    /// has ended. This is one step of `feed` on the read as it stood.
    pub fn take_into(
        &mut self,
        polled: Polled,
        buf: &mut [u8],
        count: &mut usize,
        stop: u8,
        patient: bool,
    ) -> (halt: Halt)
        requires
            *old(count) < old(buf)@.len(),
        ensures
            final(self).channel() == old(self).channel(),
            final(buf)@.len() == old(buf)@.len(),
            *old(count) <= *final(count) <= *old(count) + 1,
            *final(count) == *old(count) ==> final(buf)@ == old(buf)@,
            halt is Running ==> *final(count) == *old(count) + 1,
            halt is Failed ==> *final(count) == 0,
            forall|i: int|
                0 <= i < old(buf)@.len() && i != *old(count) ==> final(buf)@[i] == old(buf)@[i],
            forall|run: Run|
                run.halt is Running && run.state == old(self)@ && run.bytes == old(buf)@.take(
                    *old(count) as int,
                ) ==> #[trigger] feed(
                    run,
                    polled,
                    Rules { cap: old(buf)@.len(), stop, patient },
                ) == (Run {
                    state: final(self)@,
                    bytes: final(buf)@.take(*final(count) as int),
                    polls: run.polls + 1,
                    halt,
                }),
    {
        let ghost held = buf@;
        let ghost had = *count;
        match self.settle(polled, *count > 0, patient) {
            Verdict::Copy(byte) => {
                buf[*count] = byte;
                *count = *count + 1;
                proof {
                    assert(buf@.take(had + 1) =~= held.take(had as int).push(byte));
                }
                if byte == stop || *count >= buf.len() {
                    Halt::Stopped
                } else {
                    Halt::Running
                }
            },
            Verdict::Stop => {
                proof {
                    assert(buf@ =~= held);
                }
                Halt::Stopped
            },
            Verdict::Fail(error) => {
                proof {
                    assert(buf@ =~= held);
                }
                Halt::Failed(error)
            },
        }
    }

    /// Takes one outcome into a read that appends to `buf`, which held `start`
    /// bytes when the read began: a byte is appended, and the read ends after
    /// the delimiter and when no longer buffer could be measured; any other
    /// outcome is settled as `settle` says. The result says whether and how
    /// the read has ended. This is one step of `feed` on the read as it stood.
    pub fn take_onto(
        &mut self,
        polled: Polled,
        buf: &mut Vec<u8>,
        start: usize,
        delimiter: u8,
    ) -> (halt: Halt)
        requires
            start <= old(buf)@.len() < usize::MAX,
        ensures
            final(self).channel() == old(self).channel(),
            old(buf)@.len() <= final(buf)@.len() <= old(buf)@.len() + 1,
            final(buf)@.take(old(buf)@.len() as int) == old(buf)@,
            forall|run: Run|
                run.halt is Running && run.state == old(self)@ && run.bytes == old(buf)@.skip(
                    start as int,
                ) ==> #[trigger] feed(
                    run,
                    polled,
                    read_until_rules(delimiter, start as nat),
                ) == (Run {
                    state: final(self)@,
                    bytes: final(buf)@.skip(start as int),
                    polls: run.polls + 1,
                    halt,
                }),
    {
        let ghost held = buf@;
        match self.settle(polled, buf.len() > start, true) {
            Verdict::Copy(byte) => {
                buf.push(byte);
                proof {
                    assert(buf@.skip(start as int) =~= held.skip(start as int).push(byte));
                    assert(buf@.take(held.len() as int) =~= held);
                }
                if byte == delimiter || buf.len() >= usize::MAX {
                    Halt::Stopped
                } else {
                    Halt::Running
                }
            },
            Verdict::Stop => {
                proof {
                    assert(buf@.take(held.len() as int) =~= held);
                }
                Halt::Stopped
            },
            Verdict::Fail(error) => {
                proof {
                    assert(buf@.take(held.len() as int) =~= held);
                }
                Halt::Failed(error)
            },
        }
    }

    /// Copies bytes off the channel into `buf`, in order, until a newline has
    /// been copied, `buf` is full, the stream ends, a failure arrives, or no
    /// event is there in time.
    fn fill(&mut self, buf: &mut [u8], clock: Option<Clock>) -> (result: Result<usize, Error>)
        ensures
            fills(
                old(self)@,
                Rules { cap: old(buf)@.len(), stop: NEWLINE, patient: clock.is_some() },
                final(self)@,
                old(buf)@,
                final(buf)@,
                result,
            ),
            final(self).channel() == old(self).channel(),
    {
        let ghost rules = Rules { cap: buf@.len(), stop: NEWLINE, patient: clock.is_some() };
        let ghost first = begin(self@, rules);
        if let Some(error) = self.last_err.take() {
            proof {
                assert(buf@.take(0) =~= Seq::<u8>::empty());
                assert(accounts_for(
                    old(self)@,
                    rules,
                    Seq::<Polled>::empty(),
                    self@,
                    buf@.take(0),
                    Err(error),
                ));
                assert(count_of(Err::<usize, Error>(error)) == 0);
            }
            return Err(error);
        }
        let patient = clock.is_some();
        let mut count: usize = 0;
        let mut open = buf.len() > 0;
        let ghost mut trace: Seq<Polled> = Seq::empty();
        proof {
            assert(buf@.take(0) =~= Seq::<u8>::empty());
        }
        while open
            invariant
                buf@.len() == old(buf)@.len(),
                count <= buf@.len(),
                open ==> count < buf@.len(),
                rules == (Rules { cap: old(buf)@.len(), stop: NEWLINE, patient }),
                first == begin(old(self)@, rules),
                self.channel() == old(self).channel(),
                replay(first, trace, rules).polls == trace.len(),
                replay(first, trace, rules).state == self@,
                replay(first, trace, rules).bytes == buf@.take(count as int),
                replay(first, trace, rules).halt is Running <==> open,
                !(replay(first, trace, rules).halt is Failed),
                forall|i: int| count <= i < buf@.len() ==> buf@[i] == old(buf)@[i],
                patient == clock.is_some(),
            decreases buf@.len() - count + (if open { 1int } else { 0int }),
        {
            let polled = self.poll(&clock);
            let ghost seen = polled;
            let ghost before = replay(first, trace, rules);
            proof {
                lemma_replay_push(first, trace, seen, rules);
                trace = trace.push(seen);
            }
            let halt = self.take_into(polled, buf, &mut count, NEWLINE, patient);
            proof {
                assert(replay(first, trace, rules) == feed(before, seen, rules));
            }
            match halt {
                Halt::Running => {},
                Halt::Stopped => {
                    open = false;
                },
                Halt::Failed(error) => {
                    proof {
                        assert(count == 0);
                        assert(buf@.take(0) =~= Seq::<u8>::empty());
                        assert(accounts_for(
                            old(self)@,
                            rules,
                            trace,
                            self@,
                            buf@.take(0),
                            Err(error),
                        ));
                        assert(count_of(Err::<usize, Error>(error)) == 0);
                    }
                    return Err(error);
                },
            }
        }
        proof {
            assert(accounts_for(
                old(self)@,
                rules,
                trace,
                self@,
                buf@.take(count as int),
                Ok(count),
            ));
            assert(count_of(Ok::<usize, Error>(count)) == count);
        }
        Ok(count)
    }

    /// Appends bytes off the channel to `buf`, in order, until the delimiter
    /// has been appended, the stream ends, a failure arrives, or the deadline
    /// of `clock` passes.
    fn fill_until(&mut self, delimiter: u8, buf: &mut Vec<u8>, clock: Clock) -> (result: Result<
        usize,
        Error,
    >)
        ensures
            extends(
                old(self)@,
                read_until_rules(delimiter, old(buf)@.len()),
                final(self)@,
                old(buf)@,
                final(buf)@,
                result,
            ),
            final(self).channel() == old(self).channel(),
    {
        let ghost rules = read_until_rules(delimiter, buf@.len());
        let ghost first = begin(self@, rules);
        let start_len = buf.len();
        if let Some(error) = self.last_err.take() {
            proof {
                assert(buf@.skip(start_len as int) =~= Seq::<u8>::empty());
                assert(buf@.take(start_len as int) =~= buf@);
                assert(accounts_for(
                    old(self)@,
                    rules,
                    Seq::<Polled>::empty(),
                    self@,
                    buf@.skip(start_len as int),
                    Err(error),
                ));
                assert(count_of(Err::<usize, Error>(error)) == 0);
            }
            return Err(error);
        }
        let clock = Some(clock);
        let mut open = buf.len() < usize::MAX;
        let ghost mut trace: Seq<Polled> = Seq::empty();
        proof {
            assert(buf@.skip(start_len as int) =~= Seq::<u8>::empty());
            assert(buf@.take(start_len as int) =~= buf@);
        }
        while open
            invariant
                start_len == old(buf)@.len(),
                buf@.len() >= start_len,
                open ==> buf@.len() < usize::MAX,
                buf@.take(start_len as int) == old(buf)@,
                rules == read_until_rules(delimiter, old(buf)@.len()),
                first == begin(old(self)@, rules),
                self.channel() == old(self).channel(),
                replay(first, trace, rules).polls == trace.len(),
                replay(first, trace, rules).state == self@,
                replay(first, trace, rules).bytes == buf@.skip(start_len as int),
                replay(first, trace, rules).halt is Running <==> open,
                !(replay(first, trace, rules).halt is Failed),
                clock.is_some(),
            decreases usize::MAX - buf@.len() + (if open { 1int } else { 0int }),
        {
            let polled = self.poll(&clock);
            let ghost seen = polled;
            let ghost before = replay(first, trace, rules);
            let ghost held = buf@;
            proof {
                lemma_replay_push(first, trace, seen, rules);
                trace = trace.push(seen);
            }
            let halt = self.take_onto(polled, buf, start_len, delimiter);
            proof {
                assert(replay(first, trace, rules) == feed(before, seen, rules));
                assert(buf@.take(start_len as int) =~= held.take(start_len as int));
            }
            match halt {
                Halt::Running => {},
                Halt::Stopped => {
                    open = false;
                },
                Halt::Failed(error) => {
                    proof {
                        assert(buf@.len() == start_len);
                        assert(accounts_for(
                            old(self)@,
                            rules,
                            trace,
                            self@,
                            buf@.skip(start_len as int),
                            Err(error),
                        ));
                        assert(count_of(Err::<usize, Error>(error)) == 0);
                    }
                    return Err(error);
                },
            }
        }
        let count = buf.len() - start_len;
        proof {
            assert(accounts_for(
                old(self)@,
                rules,
                trace,
                self@,
                buf@.skip(start_len as int),
                Ok(count),
            ));
            assert(count_of(Ok::<usize, Error>(count)) == count);
        }
        Ok(count)
    }

    /// Copies into `buf` the bytes that are in line on the channel at the time
    /// of the call, in order, and returns how many. It never waits: zero means
    /// that nothing was there. It stops after a newline, at a full buffer, at
    /// the end of the stream and at a failure. An error owed from the read
    /// before is returned first, and nothing is read.
    pub fn read(&mut self, buf: &mut [u8]) -> (result: Result<usize, Error>)
        ensures
            fills(
                old(self)@,
                read_rules(old(buf)@.len()),
                final(self)@,
                old(buf)@,
                final(buf)@,
                result,
            ),
            old(self)@.pending matches Some(error) ==> result == Err::<usize, Error>(error)
                && final(self)@.pending.is_none() && final(buf)@ == old(buf)@,
            final(self).channel() == old(self).channel(),
            old(self)@.pending.is_none() && old(buf)@.len() == 0 ==> result == Ok::<usize, Error>(
                0,
            ) && final(self)@ == old(self)@,
    {
        let result = self.fill(buf, None);
        proof {
            lemma_owed_error_first(old(self)@, read_rules(old(buf)@.len()));
            lemma_no_room(old(self)@, read_rules(old(buf)@.len()));
            assert(old(self)@.pending.is_some() ==> buf@ =~= old(buf)@);
        }
        result
    }
}

/// Reads that wait for input, but never past a deadline.
pub trait ReadNonblock {
    /// Reads into `buf` until a newline, a full buffer or the deadline.
    fn read_timeout(&mut self, buf: &mut [u8], timeout: Duration) -> Result<usize, Error>;

    /// Appends to `buf` until `delimiter` has been appended or the deadline.
    fn read_timeout_until(
        &mut self,
        delimiter: u8,
        buf: &mut Vec<u8>,
        timeout: Duration,
    ) -> Result<usize, Error>;
}

impl ReadNonblock for Stdin {
    /// Copies bytes into `buf` as they arrive, in order, and returns how many,
    /// waiting until `timeout` has passed since the call. It stops after a
    /// newline, at a full buffer, at the end of the stream and at a failure.
    /// When the deadline passes, the bytes copied so far are the result; if
    /// there are none, the read fails with `Error::TimedOut`. A failure that
    /// follows copied bytes is kept for the next read; an error so kept is
    /// returned first, and nothing is read.
    fn read_timeout(&mut self, buf: &mut [u8], timeout: Duration) -> (result: Result<usize, Error>)
        ensures
            fills(
                old(self)@,
                read_timeout_rules(old(buf)@.len()),
                final(self)@,
                old(buf)@,
                final(buf)@,
                result,
            ),
            old(self)@.pending matches Some(error) ==> result == Err::<usize, Error>(error)
                && final(self)@.pending.is_none() && final(buf)@ == old(buf)@,
            final(self).channel() == old(self).channel(),
            old(self)@.pending.is_none() && old(buf)@.len() == 0 ==> result == Ok::<usize, Error>(
                0,
            ) && final(self)@ == old(self)@,
    {
        let result = self.fill(buf, Some(Clock::start(timeout)));
        proof {
            lemma_owed_error_first(old(self)@, read_timeout_rules(old(buf)@.len()));
            lemma_no_room(old(self)@, read_timeout_rules(old(buf)@.len()));
            assert(old(self)@.pending.is_some() ==> buf@ =~= old(buf)@);
        }
        result
    }

    /// Appends bytes to `buf` as they arrive, in order, and returns how many,
    /// waiting until `timeout` has passed since the call. It stops only after
    /// `delimiter`, at the end of the stream and at a failure; a newline does
    /// not end it. The deadline and failures are treated as in `read_timeout`.
    fn read_timeout_until(
        &mut self,
        delimiter: u8,
        buf: &mut Vec<u8>,
        timeout: Duration,
    ) -> (result: Result<usize, Error>)
        ensures
            extends(
                old(self)@,
                read_until_rules(delimiter, old(buf)@.len()),
                final(self)@,
                old(buf)@,
                final(buf)@,
                result,
            ),
            old(self)@.pending matches Some(error) ==> result == Err::<usize, Error>(error)
                && final(self)@.pending.is_none() && final(buf)@ == old(buf)@,
            final(self).channel() == old(self).channel(),
    {
        let result = self.fill_until(delimiter, buf, Clock::start(timeout));
        proof {
            lemma_owed_error_first(old(self)@, read_until_rules(delimiter, old(buf)@.len()));
            assert(old(self)@.pending.is_some() ==> buf@ =~= old(buf)@);
        }
        result
    }
}

/// A read that has ended stays as it is, whatever outcomes follow.
pub proof fn lemma_replay_halted(start: Run, trace: Seq<Polled>, rules: Rules)
    requires
        !(start.halt is Running),
    ensures
        replay(start, trace, rules) == start,
    decreases trace.len(),
{
    if trace.len() > 0 {
        lemma_replay_halted(start, trace.drop_last(), rules);
    }
}

/// An error owed from the read before is returned by the next read before it
/// takes any outcome: the read fails with that error, hands over nothing, and
/// owes nothing afterwards.
pub proof fn lemma_owed_error_first(before: Backlog, rules: Rules)
    ensures
        before.pending matches Some(error) ==> forall|trace: Seq<Polled>|
            {
                let run = #[trigger] replay(begin(before, rules), trace, rules);
                &&& run.halt == Halt::Failed(error)
                &&& run.polls == 0
                &&& run.bytes == Seq::<u8>::empty()
                &&& run.state == (Backlog { pending: None, ..before })
            },
{
    if before.pending.is_some() {
        assert forall|trace: Seq<Polled>|
            #[trigger] replay(begin(before, rules), trace, rules) == begin(before, rules) by {
            lemma_replay_halted(begin(before, rules), trace, rules);
        }
    }
}

/// The bytes among two sequences of outcomes, one after the other, are the
/// bytes of the first followed by those of the second.
pub proof fn lemma_bytes_of_concat(head: Seq<Polled>, tail: Seq<Polled>)
    ensures
        bytes_of(head + tail) == bytes_of(head) + bytes_of(tail),
    decreases tail.len(),
{
    if tail.len() == 0 {
        assert(head + tail =~= head);
        assert(bytes_of(head) + bytes_of(tail) =~= bytes_of(head));
    } else {
        lemma_bytes_of_concat(head, tail.drop_last());
        assert((head + tail).drop_last() =~= head + tail.drop_last());
        assert((head + tail).last() == tail.last());
        match tail.last() {
            Polled::Event(Event::Byte(byte)) => {
                assert(bytes_of(head + tail) =~= bytes_of(head) + bytes_of(tail));
            },
            _ => {},
        }
    }
}

/// A read into no room takes no outcome: where no error is owed, it returns
/// zero and leaves the reader as it was, whatever is in line.
pub proof fn lemma_no_room(before: Backlog, rules: Rules)
    ensures
        before.pending.is_none() && rules.cap == 0 ==> forall|trace: Seq<Polled>|
            {
                let run = #[trigger] replay(begin(before, rules), trace, rules);
                &&& run.halt is Stopped
                &&& run.polls == 0
                &&& run.bytes == Seq::<u8>::empty()
                &&& run.state == before
            },
{
    if before.pending.is_none() && rules.cap == 0 {
        assert forall|trace: Seq<Polled>|
            #[trigger] replay(begin(before, rules), trace, rules) == begin(before, rules) by {
            lemma_replay_halted(begin(before, rules), trace, rules);
        }
    }
}

/// Bytes reach the caller in the order in which they were delivered, none
/// twice and none lost: whatever the outcomes, a read hands over exactly the
/// bytes among the outcomes it took, and it takes outcomes from the front. It
/// takes no outcome after the one that ended it, so every outcome before that
/// one is a byte. No byte before the last is the stop byte, and the read
/// never exceeds its room.
pub proof fn lemma_bytes_in_order(before: Backlog, rules: Rules, trace: Seq<Polled>)
    ensures
        ({
            let run = replay(begin(before, rules), trace, rules);
            &&& run.polls <= trace.len()
            &&& run.bytes == bytes_of(trace.take(run.polls as int))
            &&& run.bytes.len() <= rules.cap
            &&& run.bytes.len() <= run.polls
            &&& forall|i: int| 0 <= i < run.bytes.len() - 1 ==> run.bytes[i] != rules.stop
            &&& forall|i: int|
                0 <= i < run.polls - 1 ==> #[trigger] trace[i] is Event && trace[i]->Event_0 is Byte
            &&& run.halt is Running ==> {
                &&& run.polls == trace.len()
                &&& run.bytes.len() == run.polls
                &&& run.bytes.len() < rules.cap
                &&& forall|i: int| 0 <= i < run.bytes.len() ==> run.bytes[i] != rules.stop
                &&& forall|i: int|
                    0 <= i < run.polls ==> #[trigger] trace[i] is Event && trace[i]->Event_0 is Byte
            }
        }),
    decreases trace.len(),
{
    let start = begin(before, rules);
    if trace.len() == 0 {
        assert(trace.take(0) =~= Seq::<Polled>::empty());
    } else {
        let front = trace.drop_last();
        lemma_bytes_in_order(before, rules, front);
        let prev = replay(start, front, rules);
        let run = replay(start, trace, rules);
        assert(run == feed(prev, trace.last(), rules));
        assert(forall|i: int| 0 <= i < front.len() ==> front[i] == trace[i]);
        if prev.halt is Running {
            assert(front.take(prev.polls as int) =~= front);
            assert(trace.take(run.polls as int) =~= trace);
        } else {
            assert(trace.take(prev.polls as int) =~= front.take(prev.polls as int));
        }
    }
}

/// Nothing is lost between two reads: where a second read takes up the
/// outcomes that the first has left, the bytes of the two, one after the other,
/// are the bytes among the outcomes that the two have taken.
pub proof fn lemma_no_loss_between_reads(
    before: Backlog,
    first_rules: Rules,
    second_rules: Rules,
    trace: Seq<Polled>,
)
    ensures
        ({
            let first = replay(begin(before, first_rules), trace, first_rules);
            let rest = trace.skip(first.polls as int);
            let second = replay(begin(first.state, second_rules), rest, second_rules);
            &&& first.polls + second.polls <= trace.len()
            &&& first.bytes + second.bytes == bytes_of(
                trace.take(first.polls as int + second.polls as int),
            )
        }),
{
    let first = replay(begin(before, first_rules), trace, first_rules);
    lemma_bytes_in_order(before, first_rules, trace);
    let rest = trace.skip(first.polls as int);
    let second = replay(begin(first.state, second_rules), rest, second_rules);
    lemma_bytes_in_order(first.state, second_rules, rest);
    lemma_bytes_of_concat(trace.take(first.polls as int), rest.take(second.polls as int));
    assert(trace.take(first.polls as int) + rest.take(second.polls as int) =~= trace.take(
        first.polls as int + second.polls as int,
    ));
}

/// A failure is kept for later only behind bytes: a read that leaves an error
/// owed has stopped, not failed, and has handed over at least one byte.
pub proof fn lemma_deferred_only_after_progress(before: Backlog, rules: Rules, trace: Seq<Polled>)
    ensures
        ({
            let run = replay(begin(before, rules), trace, rules);
            run.state.pending.is_some() ==> run.halt is Stopped && run.bytes.len() > 0
        }),
    decreases trace.len(),
{
    if trace.len() > 0 {
        lemma_deferred_only_after_progress(before, rules, trace.drop_last());
    }
}

/// A device failure behind copied bytes does not spoil them: the read that
/// meets it returns the count of those bytes and keeps the failure, and the
/// very next read, of any kind and whatever is in line, returns that failure,
/// takes no outcome and hands over nothing.
pub proof fn lemma_error_after_bytes(
    before: Backlog,
    rules: Rules,
    trace: Seq<Polled>,
    cause: std::io::Error,
    next_rules: Rules,
    next_trace: Seq<Polled>,
)
    requires
        replay(begin(before, rules), trace, rules).halt is Running,
        replay(begin(before, rules), trace, rules).bytes.len() > 0,
    ensures
        ({
            let seen = replay(begin(before, rules), trace, rules);
            let run = replay(
                begin(before, rules),
                trace.push(Polled::Event(Event::Error(cause))),
                rules,
            );
            let next = replay(begin(run.state, next_rules), next_trace, next_rules);
            &&& run.outcome() == Ok::<usize, Error>(seen.bytes.len() as usize)
            &&& run.bytes == seen.bytes
            &&& run.state.pending == Some(Error::Device(cause))
            &&& next.outcome() == Err::<usize, Error>(Error::Device(cause))
            &&& next.polls == 0
            &&& next.bytes == Seq::<u8>::empty()
            &&& next.state.pending.is_none()
        }),
{
    let polled = Polled::Event(Event::Error(cause));
    lemma_replay_push(begin(before, rules), trace, polled, rules);
    let run = replay(begin(before, rules), trace.push(polled), rules);
    lemma_owed_error_first(run.state, next_rules);
    assert(replay(begin(run.state, next_rules), next_trace, next_rules).halt == Halt::Failed(
        Error::Device(cause),
    ));
}

/// A read that waits never passes off an elapsed deadline as an empty
/// success: where it has room, owes no error and the first thing that happens
/// is that no event arrives in time, it fails with `Error::TimedOut`. And
/// where such a read has taken outcomes and returns zero, the last of them was
/// not an elapsed deadline.
pub proof fn lemma_timeout_is_reported(before: Backlog, rules: Rules, trace: Seq<Polled>)
    requires
        rules.patient,
    ensures
        ({
            let run = replay(begin(before, rules), trace, rules);
            &&& before.pending.is_none() && rules.cap > 0 && trace.len() > 0 && trace[0]
                == Polled::Idle ==> run.halt == Halt::Failed(Error::TimedOut) && run.bytes.len()
                == 0 && run.state == before
            &&& run.halt is Stopped && run.bytes.len() == 0 && run.polls > 0 ==> trace[run.polls
                - 1] != Polled::Idle
        }),
    decreases trace.len(),
{
    let start = begin(before, rules);
    if trace.len() > 0 {
        let front = trace.drop_last();
        lemma_timeout_is_reported(before, rules, front);
        lemma_bytes_in_order(before, rules, front);
        lemma_bytes_in_order(before, rules, trace);
        let prev = replay(start, front, rules);
        assert(forall|i: int| 0 <= i < front.len() ==> front[i] == trace[i]);
        if front.len() == 0 {
            assert(prev == start);
        }
    }
}

} // verus!
