use std::sync::mpsc;
use std::time::Duration;
use termular::error::Error;
use termular::nio::stdin;
use termular::nio::Event;
use termular::nio::ReadNonblock;
use termular::state::Mode;
use termular::state::UpdatePolicy;
use termular::term::Term;
use termular::vector::Vector2;

#[test]
fn term_opens_empty_in_default_mode() {
    let (_sender, receiver) = mpsc::channel();
    let mut term = Term::open(stdin(receiver));
    assert!(term.stdout().is_empty());
    assert!(term.stderr().is_empty());
    assert_eq!(term.mode(), Mode::Default);
    assert_eq!(term.take_mode_change(), None);
    assert_eq!(term.size(), None);
    assert!(!term.stdin().has_pending_error());
}

#[test]
fn term_records_size_and_mode() {
    let (_sender, receiver) = mpsc::channel();
    let mut term = Term::open(stdin(receiver));
    term.resize(Vector2::from([132, 43]));
    assert_eq!(term.size(), Some(Vector2::from([132, 43])));
    assert_eq!(term.size().unwrap() / 2, Vector2::from([66, 21]));
    term.resize(Vector2::from([80, 24]));
    assert_eq!(term.size(), Some(Vector2::from([80, 24])));
    term.set_mode(Mode::Raw);
    assert_eq!(term.mode(), Mode::Raw);
    assert_eq!(term.take_mode_change(), Some((Mode::Raw, UpdatePolicy::Now)));
    assert_eq!(term.take_mode_change(), None);
    term.set_mode(Mode::Default);
    assert_eq!(term.take_mode_change(), Some((Mode::Default, UpdatePolicy::Now)));
}

#[test]
fn term_queues_and_flushes() {
    let (_sender, receiver) = mpsc::channel();
    let mut term = Term::open(stdin(receiver));
    term.write(b"ab");
    term.write(b"");
    term.write(b"c");
    assert_eq!(term.stdout(), &b"abc".to_vec());
    term.stdout_mut().push(b'd');
    term.stderr_mut().push(b'!');
    assert_eq!(term.flush(), b"abcd".to_vec());
    assert!(term.flush().is_empty());
    assert_eq!(term.stderr(), &b"!".to_vec());
}

#[test]
fn term_reads_through_its_reader() {
    let (sender, receiver) = mpsc::channel();
    let mut term = Term::open(stdin(receiver));
    sender.send(Event::Byte(b' ')).unwrap();
    let mut buf = Vec::new();
    assert!(matches!(
        term.stdin_mut().read_timeout_until(b' ', &mut buf, Duration::from_millis(40)),
        Ok(1)
    ));
    assert!(matches!(
        term.stdin_mut().read_timeout_until(b' ', &mut buf, Duration::from_millis(40)),
        Err(Error::TimedOut)
    ));
}

#[test]
fn term_close_sends_the_farewell_behind_what_was_queued() {
    let (sender, receiver) = mpsc::channel();
    let mut term = Term::open(stdin(receiver));
    term.write(b"bye");
    term.set_mode(Mode::Raw);
    let steps = term.close();
    assert_eq!(steps.enter, Mode::Raw);
    assert_eq!(
        steps.farewell,
        b"bye\x1B[?1049h\x1B[?25h\x1B[22;29;24;39;49m\x1B[2J\x1B[1;1H\x1B[?1049l".to_vec()
    );
    assert_eq!(steps.leave, Mode::Default);
    assert!(sender.send(Event::EndOfStream).is_err());
}

#[test]
fn term_hands_out_its_own_reader() {
    let (sender, receiver) = mpsc::channel();
    let mut term = Term::open(stdin(receiver));
    sender.send(Event::Byte(b'a')).unwrap();
    sender.send(Event::Byte(b'b')).unwrap();
    let mut buf = [0u8; 1];
    assert!(matches!(term.stdin_mut().read(&mut buf), Ok(1)));
    assert_eq!(buf[0], b'a');
    assert!(!term.stdin().has_pending_error());
    assert!(matches!(term.stdin_mut().read(&mut buf), Ok(1)));
    assert_eq!(buf[0], b'b');
}
