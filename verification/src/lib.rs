//! Terminal control without blocking: a deadline-bounded reader over the
//! keyboard's byte events, the raw/cooked attribute snapshots that the reader
//! and the control protocols rely on, and the cursor-position exchange.
//!
//! The library performs no input or output of its own. Bytes bound for the
//! terminal are queued in a [`term::Term`], events from the keyboard arrive over
//! a channel, and the embedding program carries both to and from the device.

pub mod error;
pub mod escape;
pub mod cursor;
pub mod nio;
pub mod printer;
pub mod screen;
pub mod state;
pub mod stream;
pub mod term;
pub mod vector;
