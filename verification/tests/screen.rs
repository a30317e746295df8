use std::sync::mpsc;
use termular::nio::stdin;
use termular::screen::Buffer;
use termular::screen::Scroll;
use termular::state::Mode;
use termular::state::UpdatePolicy;
use termular::term::Term;
use termular::vector::Vector2;

fn term() -> Term {
    let (_sender, receiver) = mpsc::channel();
    Term::open(stdin(receiver))
}

#[test]
fn screen_switches_buffers() {
    let mut term = term();
    let bytes = term.screen().set_buffer(Buffer::Alternate).set_buffer(Buffer::Primary).flush();
    assert_eq!(bytes, b"\x1B[?1049h\x1B[?1049l".to_vec());
}

#[test]
fn screen_scrolls() {
    let mut term = term();
    let bytes = term.screen().scroll(Scroll::Up(3)).scroll(Scroll::Down(12)).flush();
    assert_eq!(bytes, b"\x1B[3S\x1B[12T".to_vec());
}

#[test]
fn screen_clears_and_homes() {
    let mut term = term();
    let bytes = term.screen().clear().flush();
    assert_eq!(bytes, b"\x1B[2J\x1B[1;1H".to_vec());
}

#[test]
fn builders_chain_in_order() {
    let mut term = term();
    let bytes = term
        .screen()
        .set_buffer(Buffer::Alternate)
        .clear()
        .cursor()
        .conceal()
        .set_position(Vector2::from([4, 2]))
        .printer()
        .print("Hello world")
        .screen()
        .scroll(Scroll::Up(1))
        .stream()
        .set_mode(Mode::Raw)
        .cursor()
        .show()
        .screen()
        .printer()
        .cursor()
        .stream()
        .printer()
        .stream()
        .screen()
        .stream()
        .flush();
    assert_eq!(
        bytes,
        b"\x1B[?1049h\x1B[2J\x1B[1;1H\x1B[?25l\x1B[3;5HHello world\x1B[1S\x1B[?25h".to_vec()
    );
    assert_eq!(term.take_mode_change(), Some((Mode::Raw, UpdatePolicy::Now)));
}

#[test]
fn stream_set_mode_applies_at_once() {
    let mut term = term();
    let bytes = term.stream().set_mode(Mode::Raw).flush();
    assert!(bytes.is_empty());
    assert_eq!(term.mode(), Mode::Raw);
    assert_eq!(term.take_mode_change(), Some((Mode::Raw, UpdatePolicy::Now)));
    assert_eq!(term.take_mode_change(), None);
    assert_eq!(term.mode(), Mode::Raw);
}
