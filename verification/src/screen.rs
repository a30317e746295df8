//! The screen: which buffer is shown, scrolling, and clearing.

use vstd::prelude::*;

use crate::cursor::Cursor;
use crate::escape::csi;
use crate::escape::digits;
use crate::printer::Printer;
use crate::stream::Stream;
use crate::term::Model;
use crate::term::Term;

verus! {

/// The two buffers of a terminal's screen.
#[derive(Debug, PartialEq, Eq, Copy, Clone)]
pub enum Buffer {
    /// The buffer that holds the scrollback.
    Primary,
    /// The buffer that full-screen programs draw on.
    Alternate,
}

/// A scroll of the screen's content by some rows.
#[derive(Debug, PartialEq, Eq, Copy, Clone)]
pub enum Scroll {
    Up(u16),
    Down(u16),
}

/// The sequence that shows a buffer: `ESC [ ? 1 0 4 9 l` for the primary one,
/// `ESC [ ? 1 0 4 9 h` for the alternate one.
pub open spec fn buffer_sequence(buffer: Buffer) -> Seq<u8> {
    match buffer {
        Buffer::Primary => csi(seq![0x3Fu8, 0x31, 0x30, 0x34, 0x39, 0x6C]),
        Buffer::Alternate => csi(seq![0x3Fu8, 0x31, 0x30, 0x34, 0x39, 0x68]),
    }
}

/// The sequence that scrolls: `ESC [ n S` up, `ESC [ n T` down.
pub open spec fn scroll_sequence(scroll: Scroll) -> Seq<u8> {
    match scroll {
        Scroll::Up(rows) => csi(digits(rows as nat).push(0x53)),
        Scroll::Down(rows) => csi(digits(rows as nat).push(0x54)),
    }
}

/// The sequences that clear the screen and put the cursor at its top left:
/// `ESC [ 2 J` and `ESC [ 1 ; 1 H`.
pub open spec fn clear_sequence() -> Seq<u8> {
    csi(seq![0x32u8, 0x4A]) + csi(seq![0x31u8, 0x3B, 0x31, 0x48])
}

/// A builder that queues screen sequences on a terminal.
pub struct Screen<'b>(pub &'b mut Term);

impl<'b> Screen<'b> {
    /// Goes on with cursor sequences.
    #[must_use]
    pub fn cursor(self) -> (cursor: Cursor<'b>)
        ensures
            *cursor.0 == *old(self.0),
            *final(cursor.0) == *final(self.0),
    {
        Cursor(self.0)
    }

    /// Goes on with text and styles.
    #[must_use]
    pub fn printer(self) -> (printer: Printer<'b>)
        ensures
            *printer.0 == *old(self.0),
            *final(printer.0) == *final(self.0),
    {
        Printer(self.0)
    }

    /// Goes on with the input mode.
    #[must_use]
    pub fn stream(self) -> (stream: Stream<'b>)
        ensures
            *stream.0 == *old(self.0),
            *final(stream.0) == *final(self.0),
    {
        Stream(self.0)
    }

    /// Shows the given buffer.
    #[must_use]
    pub fn set_buffer(self, buffer: Buffer) -> (out: Self)
        ensures
            out.0@ == old(self.0)@.wrote(buffer_sequence(buffer)),
            *final(out.0) == *final(self.0),
    {
        let Screen(term) = self;
        match buffer {
            Buffer::Primary => {
                let body: [u8; 6] = [0x3F, 0x31, 0x30, 0x34, 0x39, 0x6C];
                proof {
                    assert(body@ =~= seq![0x3Fu8, 0x31, 0x30, 0x34, 0x39, 0x6C]);
                }
                term.write_sequence(body.as_slice());
            },
            Buffer::Alternate => {
                let body: [u8; 6] = [0x3F, 0x31, 0x30, 0x34, 0x39, 0x68];
                proof {
                    assert(body@ =~= seq![0x3Fu8, 0x31, 0x30, 0x34, 0x39, 0x68]);
                }
                term.write_sequence(body.as_slice());
            },
        }
        Screen(term)
    }

    /// Scrolls the content of the screen.
    #[must_use]
    pub fn scroll(self, scroll: Scroll) -> (out: Self)
        ensures
            out.0@ == old(self.0)@.wrote(scroll_sequence(scroll)),
            *final(out.0) == *final(self.0),
    {
        let Screen(term) = self;
        match scroll {
            Scroll::Up(rows) => term.write_counted(rows as u32, 0x53),
            Scroll::Down(rows) => term.write_counted(rows as u32, 0x54),
        }
        Screen(term)
    }

    /// Clears the screen and puts the cursor at its top left.
    #[must_use]
    pub fn clear(self) -> (out: Self)
        ensures
            out.0@ == old(self.0)@.wrote(clear_sequence()),
            *final(out.0) == *final(self.0),
    {
        let ghost before = self.0@;
        let Screen(term) = self;
        let erase: [u8; 2] = [0x32, 0x4A];
        let home: [u8; 4] = [0x31, 0x3B, 0x31, 0x48];
        proof {
            assert(erase@ =~= seq![0x32u8, 0x4A]);
            assert(home@ =~= seq![0x31u8, 0x3B, 0x31, 0x48]);
        }
        term.write_sequence(erase.as_slice());
        term.write_sequence(home.as_slice());
        proof {
            before.lemma_wrote_twice(csi(erase@), csi(home@));
        }
        Screen(term)
    }

    /// Hands over the bytes queued for the standard output, in order, and
    /// leaves the queue empty.
    pub fn flush(self) -> (bytes: Vec<u8>)
        ensures
            bytes@ == old(self.0)@.stdout,
            final(self.0)@ == (Model { stdout: Seq::empty(), ..old(self.0)@ }),
    {
        self.0.flush()
    }
}

} // verus!
