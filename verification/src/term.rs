//! The terminal as the program sees it: the keyboard's reader, the bytes that
//! wait to be sent to the screen, and the input mode that was asked for.
//!
//! A `Term` sends nothing by itself. The builders obtained from it queue
//! control sequences and text; `flush` hands the queue to the caller, who
//! writes it to the device.

use vstd::prelude::*;

use std::sync::mpsc::Receiver;

use crate::cursor::Cursor;
use crate::cursor::show_sequence;
use crate::escape::csi;
use crate::escape::digits;
use crate::escape::push_bytes;
use crate::escape::push_csi;
use crate::escape::push_number;
use crate::nio::Backlog;
use crate::nio::Event;
use crate::nio::Stdin;
use crate::printer::Printer;
use crate::printer::rendition;
use crate::printer::restore_parameters;
use crate::screen::Buffer;
use crate::screen::buffer_sequence;
use crate::screen::clear_sequence;
use crate::screen::Screen;
use crate::state::Mode;
use crate::state::UpdatePolicy;
use crate::stream::Stream;
use crate::vector::Vector2;

verus! {

/// What a `Term` holds, as plain values.
pub struct Model {
    /// The channel that the keyboard's reader takes its events from.
    pub channel: Receiver<Event>,
    /// What the keyboard's reader remembers.
    pub input: Backlog,
    /// The bytes queued for the standard output, in order.
    pub stdout: Seq<u8>,
    /// The bytes queued for the control output, in order.
    pub stderr: Seq<u8>,
    /// The input mode that was asked for last.
    pub mode: Mode,
    /// How the mode is to be put in force, if that has not been done yet.
    pub change: Option<UpdatePolicy>,
    /// The size of the window as last measured, columns before rows, if it
    /// has been measured.
    pub size: Option<Vector2<u16>>,
}

impl Model {
    /// The same terminal with `bytes` queued behind what was queued before.
    pub open spec fn wrote(self, bytes: Seq<u8>) -> Model {
        Model { stdout: self.stdout + bytes, ..self }
    }

    /// Queueing one thing after another queues the two in a row.
    pub proof fn lemma_wrote_twice(self, first: Seq<u8>, second: Seq<u8>)
        ensures
            self.wrote(first).wrote(second) == self.wrote(first + second),
    {
        assert((self.stdout + first) + second =~= self.stdout + (first + second));
    }
}

/// A terminal session.
pub struct Term {
    pub(crate) stdin: Stdin,
    pub(crate) stdout: Vec<u8>,
    pub(crate) stderr: Vec<u8>,
    pub(crate) mode: Mode,
    pub(crate) change: Option<UpdatePolicy>,
    pub(crate) size: Option<Vector2<u16>>,
}

impl View for Term {
    type V = Model;

    closed spec fn view(&self) -> Model {
        Model {
            channel: self.stdin.channel(),
            input: self.stdin@,
            stdout: self.stdout@,
            stderr: self.stderr@,
            mode: self.mode,
            change: self.change,
            size: self.size,
        }
    }
}

impl Term {
    /// Opens a session on the given reader and its channel, in the default
    /// mode, with nothing queued and no size measured.
    pub fn open(stdin: Stdin) -> (term: Term)
        ensures
            term@ == (Model {
                channel: stdin.channel(),
                input: stdin@,
                stdout: Seq::empty(),
                stderr: Seq::empty(),
                mode: Mode::Default,
                change: None,
                size: None,
            }),
    {
        Term {
            stdin,
            stdout: Vec::new(),
            stderr: Vec::new(),
            mode: Mode::Default,
            change: None,
            size: None,
        }
    }

    /// A builder for cursor sequences.
    #[must_use]
    pub fn cursor(&mut self) -> (cursor: Cursor<'_>)
        ensures
            *cursor.0 == *old(self),
            *final(cursor.0) == *final(self),
    {
        Cursor(self)
    }

    /// A builder for text and styles.
    #[must_use]
    pub fn printer(&mut self) -> (printer: Printer<'_>)
        ensures
            *printer.0 == *old(self),
            *final(printer.0) == *final(self),
    {
        Printer(self)
    }

    /// A builder for screen sequences.
    #[must_use]
    pub fn screen(&mut self) -> (screen: Screen<'_>)
        ensures
            *screen.0 == *old(self),
            *final(screen.0) == *final(self),
    {
        Screen(self)
    }

    /// A builder for the input mode.
    #[must_use]
    pub fn stream(&mut self) -> (stream: Stream<'_>)
        ensures
            *stream.0 == *old(self),
            *final(stream.0) == *final(self),
    {
        Stream(self)
    }

    /// The session's own reader: the one it was opened on.
    pub fn stdin(&self) -> (stdin: &Stdin)
        ensures
            stdin.channel() == self@.channel,
            stdin@ == self@.input,
    {
        &self.stdin
    }

    /// The session's own reader, to read from. The call itself takes no event
    /// and forgets no error; what the caller does with the reader is what
    /// becomes of the session's.
    pub fn stdin_mut(&mut self) -> (stdin: &mut Stdin)
        ensures
            stdin.channel() == old(self)@.channel,
            stdin@ == old(self)@.input,
            final(self)@ == (Model {
                channel: final(stdin).channel(),
                input: final(stdin)@,
                ..old(self)@
            }),
    {
        &mut self.stdin
    }

    /// The bytes queued for the standard output.
    pub fn stdout(&self) -> (stdout: &Vec<u8>)
        ensures
            stdout@ == self@.stdout,
    {
        &self.stdout
    }

    /// The queue of the standard output, to append to or to drain.
    pub fn stdout_mut(&mut self) -> (stdout: &mut Vec<u8>)
        ensures
            stdout@ == old(self)@.stdout,
            final(self)@ == (Model { stdout: final(stdout)@, ..old(self)@ }),
    {
        &mut self.stdout
    }

    /// The bytes queued for the control output.
    pub fn stderr(&self) -> (stderr: &Vec<u8>)
        ensures
            stderr@ == self@.stderr,
    {
        &self.stderr
    }

    /// The queue of the control output, to append to or to drain.
    pub fn stderr_mut(&mut self) -> (stderr: &mut Vec<u8>)
        ensures
            stderr@ == old(self)@.stderr,
            final(self)@ == (Model { stderr: final(stderr)@, ..old(self)@ }),
    {
        &mut self.stderr
    }

    /// The size of the window as last recorded, columns before rows, or
    /// nothing where none has been recorded.
    pub fn size(&self) -> (size: Option<Vector2<u16>>)
        ensures
            size == self@.size,
    {
        self.size
    }

    /// Records the size of the window as it was measured.
    pub fn resize(&mut self, size: Vector2<u16>)
        ensures
            final(self)@ == (Model { size: Some(size), ..old(self)@ }),
    {
        self.size = Some(size);
    }

    /// The input mode that was asked for last.
    pub fn mode(&self) -> (mode: Mode)
        ensures
            mode == self@.mode,
    {
        self.mode
    }

    /// Asks for an input mode, to be put in force at once.
    pub fn set_mode(&mut self, mode: Mode)
        ensures
            final(self)@ == (Model { mode, change: Some(UpdatePolicy::Now), ..old(self)@ }),
    {
        self.mode = mode;
        self.change = Some(UpdatePolicy::Now);
    }

    /// Hands over the change of mode that is still to be put in force, if
    /// there is one: the mode and how to apply it. Afterwards none is left.
    pub fn take_mode_change(&mut self) -> (change: Option<(Mode, UpdatePolicy)>)
        ensures
            change == match old(self)@.change {
                Some(policy) => Some((old(self)@.mode, policy)),
                None => None,
            },
            final(self)@ == (Model { change: None, ..old(self)@ }),
    {
        match self.change.take() {
            Some(policy) => Some((self.mode, policy)),
            None => None,
        }
    }

    /// Queues bytes for the standard output.
    pub fn write(&mut self, bytes: &[u8])
        ensures
            final(self)@ == old(self)@.wrote(bytes@),
    {
        push_bytes(&mut self.stdout, bytes);
    }

    /// Queues one byte for the standard output.
    pub(crate) fn write_byte(&mut self, byte: u8)
        ensures
            final(self)@ == old(self)@.wrote(seq![byte]),
    {
        self.stdout.push(byte);
        proof {
            assert(self.stdout@ =~= old(self).stdout@ + seq![byte]);
        }
    }

    /// Queues the opening of a control sequence.
    pub(crate) fn write_csi(&mut self)
        ensures
            final(self)@ == old(self)@.wrote(csi(Seq::empty())),
    {
        push_csi(&mut self.stdout);
    }

    /// Queues a number in decimal.
    pub(crate) fn write_number(&mut self, number: u32)
        ensures
            final(self)@ == old(self)@.wrote(digits(number as nat)),
    {
        push_number(&mut self.stdout, number);
    }

    /// Queues a control sequence with the given bytes behind the introducer.
    pub(crate) fn write_sequence(&mut self, body: &[u8])
        ensures
            final(self)@ == old(self)@.wrote(csi(body@)),
    {
        self.write_csi();
        self.write(body);
        proof {
            old(self)@.lemma_wrote_twice(csi(Seq::empty()), body@);
            assert(csi(Seq::empty()) + body@ =~= csi(body@));
        }
    }

    /// Queues a control sequence made of a number and a final byte.
    pub(crate) fn write_counted(&mut self, count: u32, end: u8)
        ensures
            final(self)@ == old(self)@.wrote(csi(digits(count as nat).push(end))),
    {
        self.write_csi();
        self.write_number(count);
        self.write_byte(end);
        proof {
            old(self)@.lemma_wrote_twice(csi(Seq::empty()), digits(count as nat));
            old(self)@.lemma_wrote_twice(csi(Seq::empty()) + digits(count as nat), seq![end]);
            assert(csi(Seq::empty()) + digits(count as nat) + seq![end] =~= csi(
                digits(count as nat).push(end),
            ));
        }
    }

    /// Queues the request for the cursor's position on the control output.
    pub(crate) fn write_request(&mut self)
        ensures
            final(self)@ == (Model {
                stderr: old(self)@.stderr + csi(seq![0x36u8, 0x6E]),
                ..old(self)@
            }),
    {
        push_csi(&mut self.stderr);
        self.stderr.push(0x36);
        self.stderr.push(0x6E);
        proof {
            assert(self.stderr@ =~= old(self).stderr@ + csi(seq![0x36u8, 0x6E]));
        }
    }

    /// Hands over the bytes queued for the standard output, in order, and
    /// leaves the queue empty.
    pub fn flush(&mut self) -> (bytes: Vec<u8>)
        ensures
            bytes@ == old(self)@.stdout,
            final(self)@ == (Model { stdout: Seq::empty(), ..old(self)@ }),
    {
        let mut bytes = Vec::new();
        std::mem::swap(&mut self.stdout, &mut bytes);
        bytes
    }

    /// Ends the session and says what ending it takes: raw mode first, then
    /// everything that is still to be sent, which is what was queued and the
    /// farewell that leaves the screen in order, and the default mode last,
    /// whichever mode was asked for before. The reader is dropped, and with it
    /// the channel to the producer.
    pub fn close(self) -> (steps: Teardown)
        ensures
            steps.enter == Mode::Raw,
            steps.farewell@ == self@.stdout + farewell(),
            steps.leave == Mode::Default,
    {
        let mut term = self;
        let bytes = term
            .screen()
            .set_buffer(Buffer::Alternate)
            .cursor()
            .show()
            .printer()
            .restore()
            .screen()
            .clear()
            .set_buffer(Buffer::Primary)
            .flush();
        proof {
            let queued = self@;
            queued.lemma_wrote_twice(buffer_sequence(Buffer::Alternate), show_sequence());
            queued.lemma_wrote_twice(
                buffer_sequence(Buffer::Alternate) + show_sequence(),
                rendition(restore_parameters()),
            );
            queued.lemma_wrote_twice(
                buffer_sequence(Buffer::Alternate) + show_sequence() + rendition(
                    restore_parameters(),
                ),
                clear_sequence(),
            );
            queued.lemma_wrote_twice(
                buffer_sequence(Buffer::Alternate) + show_sequence() + rendition(
                    restore_parameters(),
                ) + clear_sequence(),
                buffer_sequence(Buffer::Primary),
            );
        }
        Teardown { enter: Mode::Raw, farewell: bytes, leave: Mode::Default }
    }
}

/// What ending a session takes, in the order in which it is to be done. Each
/// step is attempted whatever became of the one before: a failure on the way
/// out is not reported, and does not keep the later steps from being tried.
pub struct Teardown {
    /// The mode to put in force first, at once.
    pub enter: Mode,
    /// The bytes to send to the standard output then.
    pub farewell: Vec<u8>,
    /// The mode to put in force last, at once: the one in which the terminal
    /// was found.
    pub leave: Mode,
}

/// What a session sends last: it switches to the alternate buffer, shows the
/// cursor, undoes every style, clears the screen, and switches back to the
/// primary buffer.
pub open spec fn farewell() -> Seq<u8> {
    buffer_sequence(Buffer::Alternate) + show_sequence() + rendition(restore_parameters())
        + clear_sequence() + buffer_sequence(Buffer::Primary)
}

} // verus!
