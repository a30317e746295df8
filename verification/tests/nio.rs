use std::io;
use std::sync::mpsc;
use std::sync::mpsc::Sender;
use std::time::Duration;
use std::time::Instant;
use termular::error::Error;
use termular::nio::event_of;
use termular::nio::stdin;
use termular::nio::Event;
use termular::nio::Halt;
use termular::nio::Polled;
use termular::nio::ReadNonblock;
use termular::nio::Stdin;
use termular::nio::Verdict;

fn device() -> (Sender<Event>, Stdin) {
    let (sender, receiver) = mpsc::channel();
    (sender, stdin(receiver))
}

fn deliver(sender: &Sender<Event>, bytes: &[u8]) {
    for byte in bytes {
        sender.send(Event::Byte(*byte)).unwrap();
    }
}

fn failure(text: &str) -> io::Error {
    io::Error::new(io::ErrorKind::Other, text.to_string())
}

const SHORT: Duration = Duration::from_millis(40);

#[test]
fn read_returns_queued_bytes_in_order() {
    let (sender, mut reader) = device();
    deliver(&sender, b"abc");
    let mut buf = [0u8; 8];
    assert!(matches!(reader.read(&mut buf), Ok(3)));
    assert_eq!(&buf[..3], b"abc");
    assert_eq!(&buf[3..], &[0u8; 5]);
}

#[test]
fn read_with_nothing_queued_returns_zero() {
    let (_sender, mut reader) = device();
    let mut buf = [7u8; 4];
    let started = Instant::now();
    assert!(matches!(reader.read(&mut buf), Ok(0)));
    assert!(started.elapsed() < Duration::from_secs(5));
    assert_eq!(buf, [7u8; 4]);
}

#[test]
fn read_stops_after_a_newline() {
    let (sender, mut reader) = device();
    deliver(&sender, b"ab\ncd");
    let mut buf = [0u8; 8];
    assert!(matches!(reader.read(&mut buf), Ok(3)));
    assert_eq!(&buf[..3], b"ab\n");
    assert!(matches!(reader.read(&mut buf), Ok(2)));
    assert_eq!(&buf[..2], b"cd");
}

#[test]
fn read_stops_when_the_buffer_is_full() {
    let (sender, mut reader) = device();
    deliver(&sender, b"abcdef");
    let mut buf = [0u8; 4];
    assert!(matches!(reader.read(&mut buf), Ok(4)));
    assert_eq!(&buf, b"abcd");
    assert!(matches!(reader.read(&mut buf), Ok(2)));
    assert_eq!(&buf[..2], b"ef");
}

#[test]
fn read_into_no_room_takes_nothing() {
    let (sender, mut reader) = device();
    deliver(&sender, b"a");
    let mut none = [0u8; 0];
    assert!(matches!(reader.read(&mut none), Ok(0)));
    assert!(matches!(reader.read_timeout(&mut none, SHORT), Ok(0)));
    let mut buf = [0u8; 2];
    assert!(matches!(reader.read(&mut buf), Ok(1)));
    assert_eq!(buf[0], b'a');
}

#[test]
fn read_stops_at_the_end_of_the_stream() {
    let (sender, mut reader) = device();
    deliver(&sender, b"ab");
    sender.send(Event::EndOfStream).unwrap();
    deliver(&sender, b"cd");
    let mut buf = [0u8; 8];
    assert!(matches!(reader.read(&mut buf), Ok(2)));
    assert_eq!(&buf[..2], b"ab");
    assert!(matches!(reader.read(&mut buf), Ok(2)));
    assert_eq!(&buf[..2], b"cd");
}

#[test]
fn end_of_stream_alone_is_an_empty_success() {
    let (sender, mut reader) = device();
    sender.send(Event::EndOfStream).unwrap();
    let mut buf = [0u8; 8];
    assert!(matches!(reader.read_timeout(&mut buf, SHORT), Ok(0)));
}

#[test]
fn read_timeout_returns_bytes_that_arrive() {
    let (sender, mut reader) = device();
    deliver(&sender, b"xy");
    let mut buf = [0u8; 8];
    assert!(matches!(reader.read_timeout(&mut buf, SHORT), Ok(2)));
    assert_eq!(&buf[..2], b"xy");
}

#[test]
fn read_timeout_without_input_times_out() {
    let (_sender, mut reader) = device();
    let mut buf = [0u8; 8];
    let started = Instant::now();
    assert!(matches!(reader.read_timeout(&mut buf, SHORT), Err(Error::TimedOut)));
    assert!(started.elapsed() >= SHORT);
    assert!(started.elapsed() < Duration::from_secs(10));
    assert_eq!(buf, [0u8; 8]);
}

#[test]
fn read_timeout_with_zero_timeout_times_out() {
    let (_sender, mut reader) = device();
    let mut buf = [0u8; 8];
    assert!(matches!(reader.read_timeout(&mut buf, Duration::from_secs(0)), Err(Error::TimedOut)));
}

#[test]
fn read_timeout_takes_what_is_queued_even_with_zero_timeout() {
    let (sender, mut reader) = device();
    deliver(&sender, b"q");
    let mut buf = [0u8; 8];
    assert!(matches!(reader.read_timeout(&mut buf, Duration::from_secs(0)), Ok(1)));
    assert_eq!(buf[0], b'q');
}

#[test]
fn timeout_is_retryable() {
    let (sender, mut reader) = device();
    let mut buf = [0u8; 8];
    assert!(matches!(reader.read_timeout(&mut buf, SHORT), Err(Error::TimedOut)));
    deliver(&sender, b"z");
    assert!(matches!(reader.read_timeout(&mut buf, SHORT), Ok(1)));
    assert_eq!(buf[0], b'z');
}

#[test]
fn read_timeout_stops_after_a_newline() {
    let (sender, mut reader) = device();
    deliver(&sender, b"a\nb");
    let mut buf = [0u8; 8];
    assert!(matches!(reader.read_timeout(&mut buf, SHORT), Ok(2)));
    assert_eq!(&buf[..2], b"a\n");
    assert!(matches!(reader.read_timeout(&mut buf, SHORT), Ok(1)));
    assert_eq!(buf[0], b'b');
}

#[test]
fn error_before_any_byte_is_returned_at_once() {
    let (sender, mut reader) = device();
    sender.send(Event::Error(failure("early"))).unwrap();
    deliver(&sender, b"a");
    let mut buf = [0u8; 8];
    match reader.read_timeout(&mut buf, SHORT) {
        Err(Error::Device(cause)) => assert_eq!(cause.to_string(), "early"),
        other => panic!("unexpected: {:?}", other),
    }
    assert!(!reader.has_pending_error());
    assert!(matches!(reader.read_timeout(&mut buf, SHORT), Ok(1)));
    assert_eq!(buf[0], b'a');
}

#[test]
fn error_after_bytes_is_deferred_by_one_call() {
    let (sender, mut reader) = device();
    deliver(&sender, b"abc");
    sender.send(Event::Error(failure("late"))).unwrap();
    deliver(&sender, b"de");
    let mut buf = [0u8; 8];
    assert!(matches!(reader.read_timeout(&mut buf, SHORT), Ok(3)));
    assert_eq!(&buf[..3], b"abc");
    assert!(reader.has_pending_error());
    let mut next = [0u8; 8];
    match reader.read_timeout(&mut next, SHORT) {
        Err(Error::Device(cause)) => assert_eq!(cause.to_string(), "late"),
        other => panic!("unexpected: {:?}", other),
    }
    assert_eq!(next, [0u8; 8]);
    assert!(!reader.has_pending_error());
    assert!(matches!(reader.read_timeout(&mut next, SHORT), Ok(2)));
    assert_eq!(&next[..2], b"de");
}

#[test]
fn deferred_error_is_returned_by_any_kind_of_read() {
    let (sender, mut reader) = device();
    deliver(&sender, b"a");
    sender.send(Event::Error(failure("one"))).unwrap();
    let mut buf = [0u8; 4];
    assert!(matches!(reader.read(&mut buf), Ok(1)));
    let mut grown = vec![9u8];
    match reader.read_timeout_until(b'x', &mut grown, SHORT) {
        Err(Error::Device(cause)) => assert_eq!(cause.to_string(), "one"),
        other => panic!("unexpected: {:?}", other),
    }
    assert_eq!(grown, vec![9u8]);

    deliver(&sender, b"b");
    sender.send(Event::Error(failure("two"))).unwrap();
    assert!(matches!(reader.read_timeout_until(b'x', &mut grown, SHORT), Ok(1)));
    assert_eq!(grown, vec![9u8, b'b']);
    match reader.read(&mut buf) {
        Err(Error::Device(cause)) => assert_eq!(cause.to_string(), "two"),
        other => panic!("unexpected: {:?}", other),
    }
}

#[test]
fn read_until_stops_only_at_the_delimiter() {
    let (sender, mut reader) = device();
    deliver(&sender, b"a\nb;c");
    let mut buf = vec![b'>'];
    assert!(matches!(reader.read_timeout_until(b';', &mut buf, SHORT), Ok(4)));
    assert_eq!(buf, b">a\nb;".to_vec());
    assert!(matches!(reader.read_timeout_until(b';', &mut buf, SHORT), Ok(1)));
    assert_eq!(buf, b">a\nb;c".to_vec());
}

#[test]
fn read_until_without_input_times_out() {
    let (_sender, mut reader) = device();
    let mut buf = Vec::new();
    assert!(matches!(reader.read_timeout_until(b'R', &mut buf, SHORT), Err(Error::TimedOut)));
    assert!(buf.is_empty());
}

#[test]
fn read_until_keeps_partial_input_at_the_deadline() {
    let (sender, mut reader) = device();
    deliver(&sender, b"12");
    let mut buf = Vec::new();
    assert!(matches!(reader.read_timeout_until(b'R', &mut buf, SHORT), Ok(2)));
    assert_eq!(buf, b"12".to_vec());
}

#[test]
fn bytes_arrive_in_order_without_loss_across_reads() {
    let (sender, mut reader) = device();
    let sent: Vec<u8> = (0u8..=255).filter(|b| *b != b'\n').collect();
    deliver(&sender, &sent);
    let mut got = Vec::new();
    let mut buf = [0u8; 7];
    loop {
        match reader.read(&mut buf) {
            Ok(0) => break,
            Ok(count) => got.extend_from_slice(&buf[..count]),
            Err(error) => panic!("unexpected: {:?}", error),
        }
    }
    assert_eq!(got, sent);
}

#[test]
fn loss_of_the_producer_is_reported_once() {
    let (sender, mut reader) = device();
    deliver(&sender, b"a");
    drop(sender);
    let mut buf = [0u8; 4];
    assert!(matches!(reader.read_timeout(&mut buf, SHORT), Ok(1)));
    assert!(reader.has_pending_error());
    assert!(matches!(reader.read_timeout(&mut buf, SHORT), Err(Error::Disconnected)));
    assert!(matches!(reader.read_timeout(&mut buf, SHORT), Ok(0)));
    assert!(matches!(reader.read(&mut buf), Ok(0)));
    let mut grown = Vec::new();
    assert!(matches!(reader.read_timeout_until(b'R', &mut grown, SHORT), Ok(0)));
}

#[test]
fn loss_of_the_producer_without_bytes_fails_at_once() {
    let (sender, mut reader) = device();
    drop(sender);
    let mut buf = [0u8; 4];
    assert!(matches!(reader.read(&mut buf), Err(Error::Disconnected)));
    assert!(matches!(reader.read(&mut buf), Ok(0)));
}

#[test]
fn settle_copies_bytes_and_stops_at_the_end() {
    let (_sender, mut reader) = device();
    assert!(matches!(reader.settle(Polled::Event(Event::Byte(5)), false, true), Verdict::Copy(5)));
    assert!(matches!(reader.settle(Polled::Event(Event::EndOfStream), false, true), Verdict::Stop));
    assert!(matches!(reader.settle(Polled::Event(Event::EndOfStream), true, false), Verdict::Stop));
    assert!(!reader.has_pending_error());
}

#[test]
fn settle_on_silence_depends_on_progress_and_patience() {
    let (_sender, mut reader) = device();
    assert!(matches!(reader.settle(Polled::Idle, false, true), Verdict::Fail(Error::TimedOut)));
    assert!(matches!(reader.settle(Polled::Idle, true, true), Verdict::Stop));
    assert!(matches!(reader.settle(Polled::Idle, false, false), Verdict::Stop));
    assert!(matches!(reader.settle(Polled::Idle, true, false), Verdict::Stop));
    assert!(!reader.has_pending_error());
}

#[test]
fn settle_defers_a_failure_behind_progress() {
    let (_sender, mut reader) = device();
    assert!(matches!(
        reader.settle(Polled::Event(Event::Error(failure("x"))), false, true),
        Verdict::Fail(Error::Device(_))
    ));
    assert!(!reader.has_pending_error());
    assert!(matches!(
        reader.settle(Polled::Event(Event::Error(failure("y"))), true, true),
        Verdict::Stop
    ));
    assert!(reader.has_pending_error());
}

#[test]
fn settle_reports_the_closed_channel_once() {
    let (_sender, mut reader) = device();
    assert!(matches!(
        reader.settle(Polled::Closed, false, true),
        Verdict::Fail(Error::Disconnected)
    ));
    assert!(matches!(reader.settle(Polled::Closed, false, true), Verdict::Stop));
    assert!(matches!(reader.settle(Polled::Closed, true, false), Verdict::Stop));
    assert!(!reader.has_pending_error());
}

#[test]
fn event_of_a_read() {
    assert!(matches!(event_of(Ok(Some(0x41))), Event::Byte(0x41)));
    assert!(matches!(event_of(Ok(None)), Event::EndOfStream));
    match event_of(Err(failure("bad"))) {
        Event::Error(cause) => assert_eq!(cause.to_string(), "bad"),
        other => panic!("unexpected: {:?}", other),
    }
}

#[test]
fn take_into_stores_a_byte_and_counts_it() {
    let (_sender, mut reader) = device();
    let mut buf = [0u8; 3];
    let mut count = 0;
    let halt = reader.take_into(
        Polled::Event(Event::Byte(b'a')),
        &mut buf,
        &mut count,
        b'\n',
        true,
    );
    assert!(matches!(halt, Halt::Running));
    assert_eq!((count, buf), (1, [b'a', 0, 0]));
    let halt = reader.take_into(
        Polled::Event(Event::Byte(b'\n')),
        &mut buf,
        &mut count,
        b'\n',
        true,
    );
    assert!(matches!(halt, Halt::Stopped));
    assert_eq!((count, buf), (2, [b'a', b'\n', 0]));
    let halt = reader.take_into(
        Polled::Event(Event::Byte(b'c')),
        &mut buf,
        &mut count,
        b'\n',
        true,
    );
    assert!(matches!(halt, Halt::Stopped));
    assert_eq!((count, buf), (3, [b'a', b'\n', b'c']));
}

#[test]
fn take_into_settles_what_is_no_byte() {
    let (_sender, mut reader) = device();
    let mut buf = [7u8; 2];
    let mut count = 0;
    let halt = reader.take_into(Polled::Idle, &mut buf, &mut count, b'\n', true);
    assert!(matches!(halt, Halt::Failed(Error::TimedOut)));
    let halt = reader.take_into(Polled::Idle, &mut buf, &mut count, b'\n', false);
    assert!(matches!(halt, Halt::Stopped));
    let halt = reader.take_into(
        Polled::Event(Event::EndOfStream),
        &mut buf,
        &mut count,
        b'\n',
        true,
    );
    assert!(matches!(halt, Halt::Stopped));
    count = 1;
    let halt =
        reader.take_into(
            Polled::Event(Event::Error(failure("x"))),
            &mut buf,
            &mut count,
            b'\n',
            true,
        );
    assert!(matches!(halt, Halt::Stopped));
    assert!(reader.has_pending_error());
    assert_eq!((count, buf), (1, [7, 7]));
}

#[test]
fn take_onto_appends_a_byte() {
    let (_sender, mut reader) = device();
    let mut buf = vec![b'>'];
    let halt = reader.take_onto(Polled::Event(Event::Byte(b'\n')), &mut buf, 1, b';');
    assert!(matches!(halt, Halt::Running));
    let halt = reader.take_onto(Polled::Event(Event::Byte(b';')), &mut buf, 1, b';');
    assert!(matches!(halt, Halt::Stopped));
    assert_eq!(buf, b">\n;".to_vec());
    let halt = reader.take_onto(Polled::Idle, &mut buf, 1, b';');
    assert!(matches!(halt, Halt::Stopped));
    let halt = reader.take_onto(Polled::Idle, &mut buf, 3, b';');
    assert!(matches!(halt, Halt::Failed(Error::TimedOut)));
    assert_eq!(buf, b">\n;".to_vec());
}
