use std::io;
use termios::Termios;
use termular::error::Error;
use termular::state::raw_scope;
use termular::state::with_mode;
use termular::state::Mode;
use termular::state::Original;
use termular::state::Report;
use termular::state::State;
use termular::state::Step;
use termular::state::UpdatePolicy;

fn broken(text: &str) -> io::Error {
    io::Error::new(io::ErrorKind::Other, text.to_string())
}

fn terminal() -> Option<Termios> {
    (0..64).find_map(|fd| Termios::from_fd(fd).ok())
}

#[test]
fn mode_defaults_to_default() {
    assert_eq!(Mode::default(), Mode::Default);
    assert_ne!(Mode::Raw, Mode::Default);
    assert_ne!(UpdatePolicy::Now, UpdatePolicy::Lazy);
}

#[test]
fn original_is_empty_at_first() {
    let original: Original<u32> = Original::new();
    assert_eq!(original.get(), None);
}

#[test]
fn first_capture_becomes_the_original() {
    let mut original = Original::new();
    assert!(matches!(original.settle(Ok(7u32)), Ok(7)));
    assert_eq!(original.get(), Some(7));
}

#[test]
fn later_captures_observe_the_original() {
    let mut original = Original::new();
    assert!(matches!(original.settle(Ok(7u32)), Ok(7)));
    assert!(matches!(original.settle(Ok(8u32)), Ok(7)));
    assert!(matches!(original.settle(Ok(9u32)), Ok(7)));
    assert_eq!(original.get(), Some(7));
}

#[test]
fn failed_capture_is_state_unavailable_and_changes_nothing() {
    let mut original: Original<u32> = Original::new();
    match original.settle(Err(broken("not a tty"))) {
        Err(Error::StateUnavailable(cause)) => assert_eq!(cause.to_string(), "not a tty"),
        other => panic!("unexpected: {:?}", other),
    }
    assert_eq!(original.get(), None);
    assert!(matches!(original.settle(Ok(3u32)), Ok(3)));
    assert_eq!(original.get(), Some(3));
}

#[test]
fn failed_capture_observes_the_original_where_one_is_held() {
    let mut original = Original::new();
    assert!(matches!(original.settle(Ok(3u32)), Ok(3)));
    assert!(matches!(original.settle(Err(broken("later"))), Ok(3)));
    assert!(matches!(original.settle(Ok(4u32)), Ok(3)));
    assert_eq!(original.get(), Some(3));
}

#[test]
fn scope_captures_applies_runs_and_restores() {
    let mut scope = with_mode('r');
    assert!(matches!(scope.advance(Report::Captured(Ok('c'))), Step::Apply('r')));
    assert!(matches!(scope.advance(Report::Applied(Ok(()))), Step::Run));
    assert!(matches!(scope.advance(Report::Ran), Step::Restore('c')));
    assert!(matches!(scope.advance(Report::Restored(Ok(()))), Step::Leave(Ok(()))));
    assert!(matches!(scope.advance(Report::Ran), Step::Nothing));
}

#[test]
fn scope_ends_when_capture_fails() {
    let mut scope = with_mode('r');
    assert!(matches!(
        scope.advance(Report::Captured(Err(broken("no")))),
        Step::Leave(Err(Error::StateUnavailable(_)))
    ));
    assert!(matches!(scope.advance(Report::Captured(Ok('c'))), Step::Nothing));
}

#[test]
fn scope_restores_when_applying_fails() {
    let mut scope = with_mode('r');
    scope.advance(Report::Captured(Ok('c')));
    assert!(matches!(scope.advance(Report::Applied(Err(broken("no")))), Step::Restore('c')));
    match scope.advance(Report::Restored(Ok(()))) {
        Step::Leave(Err(Error::StateUnavailable(cause))) => assert_eq!(cause.to_string(), "no"),
        _ => panic!("unexpected step"),
    }
}

#[test]
fn scope_reports_a_failed_restoration() {
    let mut scope = with_mode('r');
    scope.advance(Report::Captured(Ok('c')));
    scope.advance(Report::Applied(Ok(())));
    scope.advance(Report::Ran);
    match scope.advance(Report::Restored(Err(broken("gone")))) {
        Step::Leave(Err(Error::StateUnavailable(cause))) => assert_eq!(cause.to_string(), "gone"),
        _ => panic!("unexpected step"),
    }
}

#[test]
fn scope_asks_again_after_a_report_that_does_not_fit() {
    let mut scope = with_mode('r');
    assert!(matches!(scope.advance(Report::Ran), Step::Capture));
    assert!(matches!(scope.advance(Report::Applied(Ok(()))), Step::Capture));
    scope.advance(Report::Captured(Ok('c')));
    assert!(matches!(scope.advance(Report::Captured(Ok('x'))), Step::Apply('r')));
    assert!(matches!(scope.advance(Report::Ran), Step::Apply('r')));
    scope.advance(Report::Applied(Ok(())));
    assert!(matches!(scope.advance(Report::Restored(Ok(()))), Step::Run));
    scope.advance(Report::Ran);
    assert!(matches!(scope.advance(Report::Ran), Step::Restore('c')));
}

#[test]
fn raw_differs_from_cooked_and_leaves_the_snapshot_alone() {
    if let Some(attributes) = terminal() {
        let state = State::new(attributes);
        let raw = state.raw();
        assert_eq!(state.attributes(), attributes);
        if attributes.c_lflag & (termios::ECHO | termios::ICANON | termios::ISIG) != 0 {
            assert_ne!(raw.attributes(), attributes);
        }
        assert_eq!(raw.attributes().c_lflag & (termios::ECHO | termios::ICANON | termios::ISIG), 0);
        assert_eq!(raw.raw().attributes(), raw.attributes());
        assert_eq!(state.for_mode(Mode::Default).attributes(), attributes);
        assert_eq!(state.for_mode(Mode::Raw).attributes(), raw.attributes());
        let mut scope = raw_scope(&state);
        match scope.advance(Report::Captured(Ok(state))) {
            Step::Apply(target) => assert_eq!(target.attributes(), raw.attributes()),
            _ => panic!("unexpected step"),
        }
    }
}
