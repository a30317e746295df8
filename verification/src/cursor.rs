//! The cursor: the escape sequences that move, show and save it, and the
//! exchange that asks the terminal where it is.
//!
//! The terminal answers a position request with `ESC [ row ; column R`, both
//! numbers in decimal and counted from one. Keystrokes typed before the answer
//! may precede it in the input, so the reply is read from its end: the last
//! `R`, the last `;` before it, the last `[` before that.

use vstd::prelude::*;

use std::time::Duration;

use crate::error::Error;
use crate::error::Token;
use crate::escape::csi;
use crate::escape::decimal;
use crate::escape::digits;
use crate::escape::INTRODUCER;
use crate::escape::is_digit;
use crate::escape::is_number;
use crate::escape::lemma_decimal_grows;
use crate::escape::lemma_digits_denote;
use crate::escape::SEPARATOR;
use crate::nio::extends;
use crate::nio::read_until_rules;
use crate::nio::ReadNonblock;
use crate::printer::Printer;
use crate::screen::Screen;
use crate::stream::Stream;
use crate::term::Model;
use crate::term::Term;
use crate::vector::pair;
use crate::vector::Vector;
use crate::vector::Vector2;

verus! {

/// The byte `R`, which ends a cursor-position reply.
pub const TERMINATOR: u8 = 0x52;

/// The value of a field of a reply: the number it denotes, where it is one and
/// fits into sixteen bits.
pub open spec fn field_value(field: Seq<u8>) -> Option<u16> {
    if is_number(field) && decimal(field) <= u16::MAX {
        Some(decimal(field) as u16)
    } else {
        None
    }
}

/// The greatest index at which `byte` occurs in `bytes`, if it occurs.
pub open spec fn last_index_of(bytes: Seq<u8>, byte: u8) -> Option<int>
    decreases bytes.len(),
{
    if bytes.len() == 0 {
        None
    } else if bytes.last() == byte {
        Some(bytes.len() - 1)
    } else {
        last_index_of(bytes.drop_last(), byte)
    }
}

/// One less, but not below zero: from a coordinate counted from one to a
/// coordinate counted from zero.
pub open spec fn zero_based(coordinate: u16) -> u16 {
    if coordinate == 0 {
        0
    } else {
        (coordinate - 1) as u16
    }
}

/// What a cursor-position reply says: the column and the row, counted from
/// zero, or why the bytes are no reply. The delimiters are sought from the end,
/// the terminator first; the row is read before the column.
pub open spec fn reply_position(bytes: Seq<u8>) -> Result<(u16, u16), Error> {
    match last_index_of(bytes, TERMINATOR) {
        None => Err(Error::MalformedReply(Token::Terminator)),
        Some(end) => match last_index_of(bytes.take(end), SEPARATOR) {
            None => Err(Error::MalformedReply(Token::Separator)),
            Some(middle) => match last_index_of(bytes.take(middle), INTRODUCER) {
                None => Err(Error::MalformedReply(Token::Introducer)),
                Some(start) => match (
                    field_value(bytes.subrange(start + 1, middle)),
                    field_value(bytes.subrange(middle + 1, end)),
                ) {
                    (Some(row), Some(column)) => Ok((zero_based(column), zero_based(row))),
                    _ => Err(Error::NonNumericField),
                },
            },
        },
    }
}

/// What a cursor-position reply says, as the vector of the column and the row.
pub open spec fn parsed_reply(bytes: Seq<u8>) -> Result<Vector2<u16>, Error> {
    match reply_position(bytes) {
        Ok((column, row)) => Ok(pair(column, row)),
        Err(error) => Err(error),
    }
}

/// `last_index_of` finds an occurrence and no later one, and finds one
/// wherever there is one.
pub proof fn lemma_last_index_of(bytes: Seq<u8>, byte: u8)
    ensures
        match last_index_of(bytes, byte) {
            Some(at) => 0 <= at < bytes.len() && bytes[at] == byte && forall|i: int|
                at < i < bytes.len() ==> bytes[i] != byte,
            None => forall|i: int| 0 <= i < bytes.len() ==> bytes[i] != byte,
        },
    decreases bytes.len(),
{
    if bytes.len() > 0 && bytes.last() != byte {
        let front = bytes.drop_last();
        lemma_last_index_of(front, byte);
        assert(forall|i: int| 0 <= i < front.len() ==> front[i] == bytes[i]);
    }
}

/// Finds the last occurrence of `byte` among the first `len` bytes.
fn rposition(bytes: &[u8], len: usize, byte: u8) -> (found: Option<usize>)
    requires
        len <= bytes@.len(),
    ensures
        match found {
            Some(at) => at < len && last_index_of(bytes@.take(len as int), byte) == Some(
                at as int,
            ),
            None => last_index_of(bytes@.take(len as int), byte).is_none(),
        },
{
    let mut at = len;
    while at > 0
        invariant
            at <= len <= bytes@.len(),
            last_index_of(bytes@.take(len as int), byte) == last_index_of(
                bytes@.take(at as int),
                byte,
            ),
        decreases at,
    {
        if bytes[at - 1] == byte {
            return Some(at - 1);
        }
        proof {
            assert(bytes@.take(at as int).drop_last() =~= bytes@.take(at - 1));
        }
        at -= 1;
    }
    None
}

/// Reads the bytes from `from` up to `to` as a decimal number of sixteen bits.
fn parse(bytes: &[u8], from: usize, to: usize) -> (value: Option<u16>)
    requires
        from <= to <= bytes@.len(),
    ensures
        value == field_value(bytes@.subrange(from as int, to as int)),
{
    let ghost field = bytes@.subrange(from as int, to as int);
    if from == to {
        return None;
    }
    let mut value: u32 = 0;
    let mut at = from;
    while at < to
        invariant
            from <= at <= to <= bytes@.len(),
            field == bytes@.subrange(from as int, to as int),
            forall|i: int| 0 <= i < at - from ==> is_digit(#[trigger] field[i]),
            value == decimal(field.take(at - from)),
            value <= u16::MAX,
        decreases to - at,
    {
        let byte = bytes[at];
        if byte < 0x30 || byte > 0x39 {
            proof {
                assert(field[at - from] == byte);
            }
            return None;
        }
        let next: u32 = value * 10 + (byte - 0x30) as u32;
        proof {
            assert(field[at - from] == byte);
            assert(field.take(at - from + 1).drop_last() =~= field.take(at - from));
            assert(field.take(at - from + 1).last() == byte);
        }
        if next > 0xFFFF {
            proof {
                if is_number(field) {
                    lemma_decimal_grows(field, at - from + 1);
                }
            }
            return None;
        }
        value = next;
        at += 1;
    }
    proof {
        assert(field.take(to - from) =~= field);
    }
    Some(value as u16)
}

/// Reads a cursor-position reply: `ESC [ row ; column R`, possibly behind
/// other bytes. The result holds the column, then the row, both counted from
/// zero. A reply without `R`, without `;` before it, or without `[` before
/// that is malformed; a row or column that is not a number of sixteen bits
/// fails as a non-numeric field. No position is ever guessed.
pub fn parse_position(bytes: &[u8]) -> (result: Result<Vector2<u16>, Error>)
    ensures
        result == parsed_reply(bytes@),
{
    proof {
        assert(bytes@.take(bytes@.len() as int) =~= bytes@);
    }
    let end = match rposition(bytes, bytes.len(), TERMINATOR) {
        Some(end) => end,
        None => return Err(Error::MalformedReply(Token::Terminator)),
    };
    let middle = match rposition(bytes, end, SEPARATOR) {
        Some(middle) => middle,
        None => return Err(Error::MalformedReply(Token::Separator)),
    };
    proof {
        assert(bytes@.take(end as int).take(middle as int) =~= bytes@.take(middle as int));
    }
    let start = match rposition(bytes, middle, INTRODUCER) {
        Some(start) => start,
        None => return Err(Error::MalformedReply(Token::Introducer)),
    };
    let row = match parse(bytes, start + 1, middle) {
        Some(row) => row,
        None => return Err(Error::NonNumericField),
    };
    let column = match parse(bytes, middle + 1, end) {
        Some(column) => column,
        None => return Err(Error::NonNumericField),
    };
    Ok(Vector::of(column.saturating_sub(1), row.saturating_sub(1)))
}

} // verus!

verus! {

/// The sequence that hides the cursor: `ESC [ ? 2 5 l`.
pub open spec fn hide_sequence() -> Seq<u8> {
    csi(seq![0x3Fu8, 0x32, 0x35, 0x6C])
}

/// The sequence that shows the cursor: `ESC [ ? 2 5 h`.
pub open spec fn show_sequence() -> Seq<u8> {
    csi(seq![0x3Fu8, 0x32, 0x35, 0x68])
}

/// The sequence that saves the cursor's position: `ESC [ s`.
pub open spec fn save_sequence() -> Seq<u8> {
    csi(seq![0x73u8])
}

/// The sequence that moves the cursor to where it was saved: `ESC [ u`.
pub open spec fn restore_sequence() -> Seq<u8> {
    csi(seq![0x75u8])
}

/// The sequence that moves the cursor by `n` cells in a direction: `ESC [ n`
/// and the direction's letter, `A` for up, `B` for down, `C` for right, `D`
/// for left.
pub open spec fn move_sequence(n: u16, direction: u8) -> Seq<u8> {
    csi(digits(n as nat).push(direction))
}

/// The sequence that puts the cursor at a column and a row, both counted from
/// zero: `ESC [ row ; column H`, both counted from one.
pub open spec fn position_sequence(column: u16, row: u16) -> Seq<u8> {
    csi((digits((row + 1) as nat).push(SEPARATOR) + digits((column + 1) as nat)).push(0x48))
}

/// The sequence that asks the terminal to report the cursor's position:
/// `ESC [ 6 n`.
pub open spec fn request_sequence() -> Seq<u8> {
    csi(seq![0x36u8, 0x6E])
}

/// A builder that queues cursor sequences on a terminal.
pub struct Cursor<'b>(pub &'b mut Term);

impl<'b> Cursor<'b> {
    /// Goes on with text and styles.
    #[must_use]
    pub fn printer(self) -> (printer: Printer<'b>)
        ensures
            *printer.0 == *old(self.0),
            *final(printer.0) == *final(self.0),
    {
        Printer(self.0)
    }

    /// Goes on with screen sequences.
    #[must_use]
    pub fn screen(self) -> (screen: Screen<'b>)
        ensures
            *screen.0 == *old(self.0),
            *final(screen.0) == *final(self.0),
    {
        Screen(self.0)
    }

    /// Goes on with the input mode.
    #[must_use]
    pub fn stream(self) -> (stream: Stream<'b>)
        ensures
            *stream.0 == *old(self.0),
            *final(stream.0) == *final(self.0),
    {
        Stream(self.0)
    }

    /// Makes the cursor invisible.
    #[must_use]
    pub fn conceal(self) -> (out: Self)
        ensures
            out.0@ == old(self.0)@.wrote(hide_sequence()),
            *final(out.0) == *final(self.0),
    {
        let Cursor(term) = self;
        let body: [u8; 4] = [0x3F, 0x32, 0x35, 0x6C];
        proof {
            assert(body@ =~= seq![0x3Fu8, 0x32, 0x35, 0x6C]);
        }
        term.write_sequence(body.as_slice());
        Cursor(term)
    }

    /// Makes the cursor visible.
    #[must_use]
    pub fn show(self) -> (out: Self)
        ensures
            out.0@ == old(self.0)@.wrote(show_sequence()),
            *final(out.0) == *final(self.0),
    {
        let Cursor(term) = self;
        let body: [u8; 4] = [0x3F, 0x32, 0x35, 0x68];
        proof {
            assert(body@ =~= seq![0x3Fu8, 0x32, 0x35, 0x68]);
        }
        term.write_sequence(body.as_slice());
        Cursor(term)
    }

    /// Has the terminal remember where the cursor is.
    #[must_use]
    pub fn save(self) -> (out: Self)
        ensures
            out.0@ == old(self.0)@.wrote(save_sequence()),
            *final(out.0) == *final(self.0),
    {
        let Cursor(term) = self;
        let body: [u8; 1] = [0x73];
        proof {
            assert(body@ =~= seq![0x73u8]);
        }
        term.write_sequence(body.as_slice());
        Cursor(term)
    }

    /// Moves the cursor to where it was when it was saved.
    #[must_use]
    pub fn restore(self) -> (out: Self)
        ensures
            out.0@ == old(self.0)@.wrote(restore_sequence()),
            *final(out.0) == *final(self.0),
    {
        let Cursor(term) = self;
        let body: [u8; 1] = [0x75];
        proof {
            assert(body@ =~= seq![0x75u8]);
        }
        term.write_sequence(body.as_slice());
        Cursor(term)
    }

    /// Moves the cursor up by `n` rows.
    #[must_use]
    pub fn up(self, n: u16) -> (out: Self)
        ensures
            out.0@ == old(self.0)@.wrote(move_sequence(n, 0x41)),
            *final(out.0) == *final(self.0),
    {
        let Cursor(term) = self;
        term.write_counted(n as u32, 0x41);
        Cursor(term)
    }

    /// Moves the cursor down by `n` rows.
    #[must_use]
    pub fn down(self, n: u16) -> (out: Self)
        ensures
            out.0@ == old(self.0)@.wrote(move_sequence(n, 0x42)),
            *final(out.0) == *final(self.0),
    {
        let Cursor(term) = self;
        term.write_counted(n as u32, 0x42);
        Cursor(term)
    }

    /// Moves the cursor right by `n` columns.
    #[must_use]
    pub fn right(self, n: u16) -> (out: Self)
        ensures
            out.0@ == old(self.0)@.wrote(move_sequence(n, 0x43)),
            *final(out.0) == *final(self.0),
    {
        let Cursor(term) = self;
        term.write_counted(n as u32, 0x43);
        Cursor(term)
    }

    /// Moves the cursor left by `n` columns.
    #[must_use]
    pub fn left(self, n: u16) -> (out: Self)
        ensures
            out.0@ == old(self.0)@.wrote(move_sequence(n, 0x44)),
            *final(out.0) == *final(self.0),
    {
        let Cursor(term) = self;
        term.write_counted(n as u32, 0x44);
        Cursor(term)
    }

    /// Puts the cursor at the given column and row, both counted from zero.
    #[must_use]
    pub fn set_position(self, pos: Vector2<u16>) -> (out: Self)
        ensures
            out.0@ == old(self.0)@.wrote(position_sequence(pos@[0], pos@[1])),
            *final(out.0) == *final(self.0),
    {
        let ghost before = self.0@;
        let Cursor(term) = self;
        let column: u32 = pos.x() as u32 + 1;
        let row: u32 = pos.y() as u32 + 1;
        term.write_csi();
        term.write_number(row);
        term.write_byte(SEPARATOR);
        term.write_number(column);
        term.write_byte(0x48);
        proof {
            let opened = csi(Seq::empty());
            let rows = digits(row as nat);
            let columns = digits(column as nat);
            before.lemma_wrote_twice(opened, rows);
            before.lemma_wrote_twice(opened + rows, seq![SEPARATOR]);
            before.lemma_wrote_twice(opened + rows + seq![SEPARATOR], columns);
            before.lemma_wrote_twice(opened + rows + seq![SEPARATOR] + columns, seq![0x48u8]);
            assert(opened + rows + seq![SEPARATOR] + columns + seq![0x48u8] =~= position_sequence(
                pos@[0],
                pos@[1],
            ));
        }
        Cursor(term)
    }

    /// Begins the exchange that asks the terminal where the cursor is, and
    /// returns it: the exchange says step by step what is to be done. `raw`
    /// are the attributes to put in force while the terminal answers. Nothing
    /// is queued yet: the request is queued when the exchange comes to it.
    pub fn position<S: Copy>(self, raw: S) -> (query: PositionQuery<S>)
        ensures
            query@ == (Exchange { raw, phase: Phase::Flushing }),
            *final(self.0) == *old(self.0),
    {
        PositionQuery { raw, phase: Phase::Flushing }
    }

    /// Hands over the bytes queued for the standard output, in order, and
    /// leaves the queue empty.
    pub fn flush(self) -> (bytes: Vec<u8>)
        ensures
            bytes@ == old(self.0)@.stdout,
            final(self.0)@ == (Model { stdout: Seq::empty(), ..old(self.0)@ }),
    {
        self.0.flush()
    }
}

/// How long the terminal is given to answer a position request, in seconds.
pub const REPLY_TIMEOUT: u64 = 1;

/// `Duration::from_secs`: the span of the given number of whole seconds.
/// Nothing is claimed of the result.
#[verifier::external_body]
fn seconds(count: u64) -> Duration {
    Duration::from_secs(count)
}

/// What the exchange makes of the attempt to read the reply. A failed read
/// fails the exchange with the same error. A read that ended without the
/// terminator means that the terminal did not answer in time. A reply that
/// ends in the terminator is parsed.
pub open spec fn reply_outcome(read: Result<usize, Error>, reply: Seq<u8>) -> Result<
    Vector2<u16>,
    Error,
> {
    match read {
        Err(error) => Err(error),
        Ok(_) => if reply.len() > 0 && reply.last() == TERMINATOR {
            parsed_reply(reply)
        } else {
            Err(Error::TimedOut)
        },
    }
}

/// Decides what the exchange makes of the attempt to read the reply, given
/// the result of the read and the bytes that it gathered.
pub fn read_reply(read: Result<usize, Error>, reply: &[u8]) -> (outcome: Result<
    Vector2<u16>,
    Error,
>)
    ensures
        outcome == reply_outcome(read, reply@),
{
    match read {
        Err(error) => Err(error),
        Ok(_) => {
            if reply.len() > 0 && reply[reply.len() - 1] == TERMINATOR {
                parse_position(reply)
            } else {
                Err(Error::TimedOut)
            }
        },
    }
}

/// Where a position exchange stands.
pub enum Phase<S> {
    /// The output queued before the request is being sent.
    Flushing,
    /// The attributes in force are being read.
    Capturing,
    /// The raw attributes are being written; `previous` were in force.
    Applying { previous: S },
    /// The request is being sent.
    Requesting { previous: S },
    /// The reply is being awaited.
    Awaiting { previous: S },
    /// The previous attributes are being written back; `outcome` is what the
    /// exchange has come to.
    Restoring { previous: S, outcome: Result<Vector2<u16>, Error> },
    /// The exchange is over.
    Finished,
}

/// What the embedding program reports to a position exchange.
pub enum Answer<S> {
    /// The queued output was sent, or could not be.
    Flushed(Result<(), std::io::Error>),
    /// The attributes in force were read, or could not be.
    Captured(Result<S, std::io::Error>),
    /// The raw attributes were written, or could not be.
    Applied(Result<(), std::io::Error>),
    /// The request was sent, or could not be.
    Requested(Result<(), std::io::Error>),
    /// The reply was read: the result of the read and the bytes gathered.
    Replied(Result<usize, Error>, Vec<u8>),
    /// The previous attributes were written back, or could not be.
    Restored(Result<(), std::io::Error>),
}

/// What a position exchange asks the embedding program to do next.
pub enum Ask<S> {
    /// Send what is queued for the standard output.
    Flush,
    /// Read the attributes in force and report them.
    Capture,
    /// Write these attributes to the device at once.
    Apply(S),
    /// Send what is queued for the control output: the request.
    Request,
    /// Have the exchange await the reply.
    Await,
    /// Write these attributes, which were in force before, back to the device.
    Restore(S),
    /// Return this: the position, or why there is none.
    Finish(Result<Vector2<u16>, Error>),
    /// Nothing: the exchange was over before.
    Nothing,
}

/// A position exchange and what it holds.
pub struct Exchange<S> {
    /// The attributes to put in force while the terminal answers.
    pub raw: S,
    /// Where the exchange stands.
    pub phase: Phase<S>,
}

impl<S> Exchange<S> {
    /// The step that the exchange is waiting for an answer to.
    pub open spec fn pending(self) -> Ask<S> {
        match self.phase {
            Phase::Flushing => Ask::Flush,
            Phase::Capturing => Ask::Capture,
            Phase::Applying { previous } => Ask::Apply(self.raw),
            Phase::Requesting { previous } => Ask::Request,
            Phase::Awaiting { previous } => Ask::Await,
            Phase::Restoring { previous, outcome } => Ask::Restore(previous),
            Phase::Finished => Ask::Nothing,
        }
    }

    /// Whether the exchange, on this answer, comes to its request: raw mode
    /// has just been entered.
    pub open spec fn requests(self, answer: Answer<S>) -> bool {
        self.phase is Applying && answer matches Answer::Applied(Ok(_))
    }

    /// The terminal after the exchange has taken this answer: the request is
    /// queued on the control output when the exchange comes to it, and at no
    /// other time; nothing else changes.
    pub open spec fn queues(self, answer: Answer<S>, before: Model) -> Model {
        if self.requests(answer) {
            Model { stderr: before.stderr + request_sequence(), ..before }
        } else {
            before
        }
    }

    /// The exchange after an answer, and the step it asks for. The steps
    /// follow one another as the protocol has them: flush, capture, raw mode,
    /// request, reply, restore. A failure before the attributes were captured
    /// ends the exchange; after that, every path to the end leads through the
    /// restoration of the captured attributes, and a failure to restore them
    /// takes the place of whatever the exchange had come to. An answer that
    /// does not fit the pending step changes nothing, and the step is asked
    /// for again.
    pub open spec fn next(self, answer: Answer<S>) -> (Exchange<S>, Ask<S>) {
        match (self.phase, answer) {
            (Phase::Flushing, Answer::Flushed(Ok(_))) => (
                Exchange { phase: Phase::Capturing, ..self },
                Ask::Capture,
            ),
            (Phase::Flushing, Answer::Flushed(Err(cause))) => (
                Exchange { phase: Phase::Finished, ..self },
                Ask::Finish(Err(Error::Device(cause))),
            ),
            (Phase::Capturing, Answer::Captured(Ok(previous))) => (
                Exchange { phase: Phase::Applying { previous }, ..self },
                Ask::Apply(self.raw),
            ),
            (Phase::Capturing, Answer::Captured(Err(cause))) => (
                Exchange { phase: Phase::Finished, ..self },
                Ask::Finish(Err(Error::StateUnavailable(cause))),
            ),
            (Phase::Applying { previous }, Answer::Applied(Ok(_))) => (
                Exchange { phase: Phase::Requesting { previous }, ..self },
                Ask::Request,
            ),
            (Phase::Applying { previous }, Answer::Applied(Err(cause))) => (
                Exchange {
                    phase: Phase::Restoring {
                        previous,
                        outcome: Err(Error::StateUnavailable(cause)),
                    },
                    ..self
                },
                Ask::Restore(previous),
            ),
            (Phase::Requesting { previous }, Answer::Requested(Ok(_))) => (
                Exchange { phase: Phase::Awaiting { previous }, ..self },
                Ask::Await,
            ),
            (Phase::Requesting { previous }, Answer::Requested(Err(cause))) => (
                Exchange {
                    phase: Phase::Restoring { previous, outcome: Err(Error::Device(cause)) },
                    ..self
                },
                Ask::Restore(previous),
            ),
            (Phase::Awaiting { previous }, Answer::Replied(read, reply)) => (
                Exchange {
                    phase: Phase::Restoring { previous, outcome: reply_outcome(read, reply@) },
                    ..self
                },
                Ask::Restore(previous),
            ),
            (Phase::Restoring { previous, outcome }, Answer::Restored(Ok(_))) => (
                Exchange { phase: Phase::Finished, ..self },
                Ask::Finish(outcome),
            ),
            (Phase::Restoring { previous, outcome }, Answer::Restored(Err(cause))) => (
                Exchange { phase: Phase::Finished, ..self },
                Ask::Finish(Err(Error::StateUnavailable(cause))),
            ),
            _ => (self, self.pending()),
        }
    }
}

/// The exchange that asks the terminal where the cursor is. It performs no
/// input or output itself: it says what to do, and is told how that went.
pub struct PositionQuery<S> {
    raw: S,
    phase: Phase<S>,
}

impl<S> View for PositionQuery<S> {
    type V = Exchange<S>;

    closed spec fn view(&self) -> Exchange<S> {
        Exchange { raw: self.raw, phase: self.phase }
    }
}

impl<S: Copy> PositionQuery<S> {
    /// The step that the exchange is waiting for an answer to.
    pub fn pending(&self) -> (ask: Ask<S>)
        ensures
            ask == self@.pending(),
    {
        match &self.phase {
            Phase::Flushing => Ask::Flush,
            Phase::Capturing => Ask::Capture,
            Phase::Applying { previous } => Ask::Apply(self.raw),
            Phase::Requesting { previous } => Ask::Request,
            Phase::Awaiting { previous } => Ask::Await,
            Phase::Restoring { previous, outcome } => Ask::Restore(*previous),
            Phase::Finished => Ask::Nothing,
        }
    }

    /// Takes an answer and says what to do next. When raw mode has been
    /// entered, the request is queued on the control output of `term`, so that
    /// the step asked for then, `Ask::Request`, finds it there; an exchange
    /// that ends before leaves the control output as it found it.
    pub fn advance(&mut self, answer: Answer<S>, term: &mut Term) -> (ask: Ask<S>)
        ensures
            (final(self)@, ask) == old(self)@.next(answer),
            final(term)@ == old(self)@.queues(answer, old(term)@),
    {
        let mut phase = Phase::Finished;
        std::mem::swap(&mut self.phase, &mut phase);
        match (phase, answer) {
            (Phase::Flushing, Answer::Flushed(Ok(_))) => {
                self.phase = Phase::Capturing;
                Ask::Capture
            },
            (Phase::Flushing, Answer::Flushed(Err(cause))) => {
                Ask::Finish(Err(Error::Device(cause)))
            },
            (Phase::Capturing, Answer::Captured(Ok(previous))) => {
                self.phase = Phase::Applying { previous };
                Ask::Apply(self.raw)
            },
            (Phase::Capturing, Answer::Captured(Err(cause))) => {
                Ask::Finish(Err(Error::StateUnavailable(cause)))
            },
            (Phase::Applying { previous }, Answer::Applied(Ok(_))) => {
                term.write_request();
                self.phase = Phase::Requesting { previous };
                Ask::Request
            },
            (Phase::Applying { previous }, Answer::Applied(Err(cause))) => {
                self.phase = Phase::Restoring {
                    previous,
                    outcome: Err(Error::StateUnavailable(cause)),
                };
                Ask::Restore(previous)
            },
            (Phase::Requesting { previous }, Answer::Requested(Ok(_))) => {
                self.phase = Phase::Awaiting { previous };
                Ask::Await
            },
            (Phase::Requesting { previous }, Answer::Requested(Err(cause))) => {
                self.phase = Phase::Restoring { previous, outcome: Err(Error::Device(cause)) };
                Ask::Restore(previous)
            },
            (Phase::Awaiting { previous }, Answer::Replied(read, reply)) => {
                let outcome = read_reply(read, reply.as_slice());
                self.phase = Phase::Restoring { previous, outcome };
                Ask::Restore(previous)
            },
            (Phase::Restoring { previous, outcome }, Answer::Restored(Ok(_))) => {
                Ask::Finish(outcome)
            },
            (Phase::Restoring { previous, outcome }, Answer::Restored(Err(cause))) => {
                Ask::Finish(Err(Error::StateUnavailable(cause)))
            },
            (phase, _) => {
                self.phase = phase;
                self.pending()
            },
        }
    }

    /// Awaits the reply: reads from the reader of `term` until the terminator
    /// has arrived or a second has passed, and hands the exchange what came of
    /// it. Which bytes arrive is the terminal's doing; the exchange goes on as
    /// `next` says for the read that took place. Of the session, only what its
    /// reader remembers changes.
    pub fn await_reply(&mut self, term: &mut Term) -> (ask: Ask<S>)
        ensures
            final(term)@ == (Model { input: final(term)@.input, ..old(term)@ }),
            exists|read: Result<usize, Error>, reply: Vec<u8>|
                {
                    &&& extends(
                        old(term)@.input,
                        read_until_rules(TERMINATOR, 0),
                        final(term)@.input,
                        Seq::empty(),
                        reply@,
                        read,
                    )
                    &&& (final(self)@, ask) == #[trigger] old(self)@.next(
                        Answer::Replied(read, reply),
                    )
                },
    {
        let mut reply: Vec<u8> = Vec::new();
        let read = term.stdin_mut().read_timeout_until(
            TERMINATOR,
            &mut reply,
            seconds(REPLY_TIMEOUT),
        );
        let ghost told = Answer::<S>::Replied(read, reply);
        let ghost read_from = term@;
        let ask = self.advance(Answer::Replied(read, reply), term);
        proof {
            assert(!old(self)@.requests(told));
            assert((self@, ask) == old(self)@.next(told));
            assert(term@ == read_from);
        }
        ask
    }
}

/// The exchange after a sequence of answers, and the steps it asked for in
/// reply to them, in order.
pub open spec fn run_exchange<S>(start: Exchange<S>, answers: Seq<Answer<S>>) -> (
    Exchange<S>,
    Seq<Ask<S>>,
)
    decreases answers.len(),
{
    if answers.len() == 0 {
        (start, Seq::empty())
    } else {
        let (before, asks) = run_exchange(start, answers.drop_last());
        let (after, ask) = before.next(answers.last());
        (after, asks.push(ask))
    }
}

/// The attributes that the last of the given steps to write any asked to be
/// written to the device.
pub open spec fn last_written<S>(asks: Seq<Ask<S>>) -> Option<S>
    decreases asks.len(),
{
    if asks.len() == 0 {
        None
    } else {
        match asks.last() {
            Ask::Apply(attributes) => Some(attributes),
            Ask::Restore(attributes) => Some(attributes),
            _ => last_written(asks.drop_last()),
        }
    }
}

/// An exchange leaves the terminal as it found it: once the output has been
/// flushed and the attributes in force have been captured, whatever is
/// answered afterwards, the exchange asks for no other attributes to be
/// written than the raw ones and the captured ones, and when it is over, the
/// captured ones are those that it asked to be written last.
pub proof fn lemma_exchange_restores<S>(raw: S, previous: S, answers: Seq<Answer<S>>)
    requires
        answers.len() > 1,
        answers[0] == Answer::<S>::Flushed(Ok(())),
        answers[1] == Answer::Captured(Ok::<S, std::io::Error>(previous)),
    ensures
        ({
            let start = Exchange { raw, phase: Phase::Flushing };
            let (end, asks) = run_exchange(start, answers);
            &&& asks.len() == answers.len()
            &&& end.raw == raw
            &&& match end.phase {
                Phase::Flushing => false,
                Phase::Capturing => false,
                Phase::Applying { previous: held } => held == previous && last_written(asks)
                    == Some(raw),
                Phase::Requesting { previous: held } => held == previous && last_written(asks)
                    == Some(raw),
                Phase::Awaiting { previous: held } => held == previous && last_written(asks)
                    == Some(raw),
                Phase::Restoring { previous: held, outcome } => held == previous
                    && last_written(asks) == Some(previous),
                Phase::Finished => last_written(asks) == Some(previous),
            }
        }),
    decreases answers.len(),
{
    let start = Exchange { raw, phase: Phase::Flushing };
    let front = answers.drop_last();
    if front.len() == 1 {
        let none = front.drop_last();
        assert(none.len() == 0);
        assert(run_exchange(start, none) == (start, Seq::<Ask<S>>::empty()));
        assert(front.last() == answers[0]);
        let (first, asked) = run_exchange(start, front);
        assert(asked =~= seq![Ask::<S>::Capture]);
        assert(first == (Exchange { raw, phase: Phase::Capturing }));
        let (end, asks) = run_exchange(start, answers);
        assert(answers.last() == answers[1]);
        assert(asks =~= seq![Ask::<S>::Capture, Ask::Apply(raw)]);
        assert(asks.drop_last() =~= seq![Ask::<S>::Capture]);
        assert(asks.drop_last().drop_last() =~= Seq::<Ask<S>>::empty());
    } else {
        assert(front[0] == answers[0]);
        assert(front[1] == answers[1]);
        lemma_exchange_restores(raw, previous, front);
        let (before, asks) = run_exchange(start, front);
        let (after, ask) = before.next(answers.last());
        assert(asks.push(ask).drop_last() =~= asks);
    }
}

/// A well-formed reply is understood whatever precedes it: for every row and
/// column and for any bytes before the escape byte, the reply `ESC [ row ;
/// column R` yields the column and the row, each one less, but not below
/// zero.
pub proof fn lemma_reply_after_garbage(garbage: Seq<u8>, row: u16, column: u16)
    ensures
        reply_position(
            garbage + csi(
                (digits(row as nat).push(SEPARATOR) + digits(column as nat)).push(TERMINATOR),
            ),
        ) == Ok::<(u16, u16), Error>((zero_based(column), zero_based(row))),
{
    let rows = digits(row as nat);
    let columns = digits(column as nat);
    let bytes = garbage + csi((rows.push(SEPARATOR) + columns).push(TERMINATOR));
    lemma_digits_denote(row as nat);
    lemma_digits_denote(column as nat);
    let start: int = garbage.len() as int + 1;
    let middle: int = start + 1 + rows.len();
    let end: int = middle + 1 + columns.len();
    assert(bytes.len() == end + 1);
    assert(bytes[end] == TERMINATOR);
    assert(bytes[middle] == SEPARATOR);
    assert(bytes[start] == INTRODUCER);
    assert(bytes.subrange(start + 1, middle) =~= rows);
    assert(bytes.subrange(middle + 1, end) =~= columns);
    assert(last_index_of(bytes, TERMINATOR) == Some(end));
    lemma_last_found(bytes.take(end), SEPARATOR, middle);
    assert(bytes.take(end).take(middle) =~= bytes.take(middle));
    lemma_last_found(bytes.take(middle), INTRODUCER, start);
}

/// Where a byte occurs at an index and nowhere behind it, that index is the
/// last at which it occurs.
pub proof fn lemma_last_found(bytes: Seq<u8>, byte: u8, at: int)
    requires
        0 <= at < bytes.len(),
        bytes[at] == byte,
        forall|i: int| at < i < bytes.len() ==> bytes[i] != byte,
    ensures
        last_index_of(bytes, byte) == Some(at),
    decreases bytes.len(),
{
    if bytes.last() != byte {
        lemma_last_found(bytes.drop_last(), byte, at);
    }
}

} // verus!
