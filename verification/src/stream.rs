//! The input mode as part of a chain of builders.

use vstd::prelude::*;

use crate::cursor::Cursor;
use crate::printer::Printer;
use crate::screen::Screen;
use crate::state::Mode;
use crate::state::UpdatePolicy;
use crate::term::Model;
use crate::term::Term;

verus! {

/// A builder that asks for an input mode on a terminal.
pub struct Stream<'b>(pub &'b mut Term);

impl<'b> Stream<'b> {
    /// Goes on with cursor sequences.
    #[must_use]
    pub fn cursor(self) -> (cursor: Cursor<'b>)
        ensures
            *cursor.0 == *old(self.0),
            *final(cursor.0) == *final(self.0),
    {
        Cursor(self.0)
    }

    /// Goes on with text and styles.
    #[must_use]
    pub fn printer(self) -> (printer: Printer<'b>)
        ensures
            *printer.0 == *old(self.0),
            *final(printer.0) == *final(self.0),
    {
        Printer(self.0)
    }

    /// Goes on with screen sequences.
    #[must_use]
    pub fn screen(self) -> (screen: Screen<'b>)
        ensures
            *screen.0 == *old(self.0),
            *final(screen.0) == *final(self.0),
    {
        Screen(self.0)
    }

    /// Asks for an input mode, to be put in force at once: a change of mode
    /// never waits for output to drain.
    #[must_use]
    pub fn set_mode(self, mode: Mode) -> (out: Self)
        ensures
            out.0@ == (Model { mode, change: Some(UpdatePolicy::Now), ..old(self.0)@ }),
            *final(out.0) == *final(self.0),
    {
        let Stream(term) = self;
        term.set_mode(mode);
        Stream(term)
    }

    /// Hands over the bytes queued for the standard output, in order, and
    /// leaves the queue empty.
    pub fn flush(self) -> (bytes: Vec<u8>)
        ensures
            bytes@ == old(self.0)@.stdout,
            final(self.0)@ == (Model { stdout: Seq::empty(), ..old(self.0)@ }),
    {
        self.0.flush()
    }
}

} // verus!
