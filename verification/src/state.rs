//! The terminal's line-discipline attributes: snapshots of them, the raw
//! variant of a snapshot, the one snapshot that counts as the original, and the
//! scope that puts other attributes in force for a while and restores what was
//! there before.
//!
//! Reading the attributes from the device and writing them to it is left to
//! the embedding program. What is decided here is which snapshot is written
//! when, and which one is remembered.

use vstd::prelude::*;

use termios::Termios;

use crate::error::Error;

verus! {

/// Declares `termios::Termios`, the attributes of a terminal device. The
/// library never looks inside one.
#[verifier::external_type_specification]
#[verifier::external_body]
pub struct ExTermios(Termios);

/// The attributes that `termios::cfmakeraw` makes of given ones.
pub uninterp spec fn raw_attributes(attributes: Termios) -> Termios;

/// `termios::cfmakeraw`: sets the flags of a copy of `attributes` so that all
/// input and output processing is disabled. The result is the one named
/// `raw_attributes`: it depends on the given attributes alone.
#[verifier::external_body]
fn make_raw(attributes: Termios) -> (raw: Termios)
    ensures
        raw == raw_attributes(attributes),
{
    let mut raw = attributes;
    termios::cfmakeraw(&mut raw);
    raw
}

/// The two modes of terminal input.
#[derive(Debug, PartialEq, Eq, Copy, Clone, Structural)]
pub enum Mode {
    /// Line-buffered and echoing, as the terminal was found.
    Default,
    /// Byte by byte, without echo and without signal keys.
    Raw,
}

impl Default for Mode {
    /// The mode in which a terminal is found.
    fn default() -> (mode: Mode)
        ensures
            mode == Mode::Default,
    {
        Mode::Default
    }
}

/// When a change of attributes takes effect. The library itself asks for
/// `Now` only: a change of mode never waits for output to drain.
#[derive(Debug, PartialEq, Eq, Copy, Clone, Structural)]
pub enum UpdatePolicy {
    /// At once.
    Now,
    /// Once the output written so far has been sent; input not yet read is
    /// discarded.
    Lazy,
}

/// A snapshot of the terminal's attributes.
#[derive(Debug, Copy, Clone)]
pub struct State {
    inner: Termios,
}

impl View for State {
    type V = Termios;

    closed spec fn view(&self) -> Termios {
        self.inner
    }
}

impl State {
    /// The snapshot that holds the given attributes.
    pub fn new(attributes: Termios) -> (state: State)
        ensures
            state@ == attributes,
    {
        State { inner: attributes }
    }

    /// The attributes of the snapshot.
    pub fn attributes(&self) -> (attributes: Termios)
        ensures
            attributes == self@,
    {
        self.inner
    }

    /// The raw variant of the snapshot: the same attributes with echo,
    /// canonical processing and signal keys disabled. The snapshot itself
    /// stays as it is, and the device is not touched.
    #[must_use]
    pub fn raw(&self) -> (raw: State)
        ensures
            raw@ == raw_attributes(self@),
    {
        State { inner: make_raw(self.inner) }
    }

    /// The snapshot to write to the device for `mode`, where `self` is the
    /// original: the original itself for the default mode, its raw variant for
    /// raw mode. Raw attributes are always derived from the original, never
    /// from attributes that are raw already.
    #[must_use]
    pub fn for_mode(&self, mode: Mode) -> (state: State)
        ensures
            state@ == attributes_for(self@, mode),
    {
        match mode {
            Mode::Default => *self,
            Mode::Raw => self.raw(),
        }
    }
}

/// The attributes to put in force for `mode`, given the original ones.
pub open spec fn attributes_for(original: Termios, mode: Mode) -> Termios {
    match mode {
        Mode::Default => original,
        Mode::Raw => raw_attributes(original),
    }
}

/// The place of the original snapshot: empty until the first capture, and
/// never written again.
pub struct Original<S> {
    slot: Option<S>,
}

impl<S> View for Original<S> {
    type V = Option<S>;

    closed spec fn view(&self) -> Option<S> {
        self.slot
    }
}

/// What a capture leaves in the place of the original, and what its caller
/// observes: the first snapshot that was captured, whoever captured it.
pub open spec fn first_wins<S>(held: Option<S>, fresh: S) -> S {
    match held {
        Some(original) => original,
        None => fresh,
    }
}

/// What the callers of a sequence of captures observe, one after the other,
/// where the place of the original held `held` before the first of them.
pub open spec fn observations<S>(held: Option<S>, captures: Seq<S>) -> Seq<S>
    decreases captures.len(),
{
    if captures.len() == 0 {
        Seq::empty()
    } else {
        let seen = first_wins(held, captures.first());
        seq![seen] + observations(Some(seen), captures.drop_first())
    }
}

impl<S: Copy> Original<S> {
    /// An empty place: nothing has been captured.
    pub fn new() -> (original: Self)
        ensures
            original@.is_none(),
    {
        Original { slot: None }
    }

    /// The original snapshot, if one has been captured.
    pub fn get(&self) -> (held: Option<S>)
        ensures
            held == self@,
    {
        self.slot
    }

    /// Takes note of a capture. Where an original is held, the caller
    /// observes it, and what its own capture gave, a snapshot or a failure, is
    /// discarded. Where none is held, a successful capture becomes the
    /// original, and a failed one is reported as `Error::StateUnavailable` and
    /// leaves the place empty.
    pub fn settle(&mut self, capture: Result<S, std::io::Error>) -> (result: Result<S, Error>)
        ensures
            match (old(self)@, capture) {
                (Some(original), _) => result == Ok::<S, Error>(original) && final(self)@ == old(
                    self,
                )@,
                (None, Ok(fresh)) => result == Ok::<S, Error>(fresh) && final(self)@ == Some(fresh),
                (None, Err(cause)) => result == Err::<S, Error>(Error::StateUnavailable(cause))
                    && final(self)@.is_none(),
            },
    {
        match self.slot {
            Some(original) => Ok(original),
            None => match capture {
                Ok(fresh) => {
                    self.slot = Some(fresh);
                    Ok(fresh)
                },
                Err(cause) => Err(Error::StateUnavailable(cause)),
            },
        }
    }
}

/// However many captures follow one another, all their callers observe one
/// and the same snapshot: the original that was held before them, or else the
/// first that was captured. No later capture takes its place.
pub proof fn lemma_one_original<S>(held: Option<S>, captures: Seq<S>)
    requires
        captures.len() > 0,
    ensures
        observations(held, captures).len() == captures.len(),
        forall|i: int|
            0 <= i < captures.len() ==> #[trigger] observations(held, captures)[i] == first_wins(
                held,
                captures[0],
            ),
    decreases captures.len(),
{
    let seen = first_wins(held, captures.first());
    let rest = captures.drop_first();
    if rest.len() > 0 {
        lemma_one_original(Some(seen), rest);
        assert forall|i: int| 0 <= i < captures.len() implies #[trigger] observations(
            held,
            captures,
        )[i] == seen by {
            if i > 0 {
                assert(observations(held, captures)[i] == observations(Some(seen), rest)[i - 1]);
            }
        }
    } else {
        assert(observations(Some(seen), rest) =~= Seq::<S>::empty());
    }
}

/// Where a scope stands.
pub enum Stage<S> {
    /// The attributes in force are being read.
    Capturing,
    /// The target attributes are being written; `previous` were in force.
    Applying { previous: S },
    /// The body of the scope runs under the target attributes.
    Running { previous: S },
    /// The previous attributes are being written back. `failure` is what went
    /// wrong before, if anything.
    Restoring { previous: S, failure: Option<Error> },
    /// The scope is over.
    Left,
}

/// What the embedding program reports to a scope.
pub enum Report<S> {
    /// The attributes in force were read, or could not be.
    Captured(Result<S, std::io::Error>),
    /// The target attributes were written, or could not be.
    Applied(Result<(), std::io::Error>),
    /// The body has run.
    Ran,
    /// The previous attributes were written back, or could not be.
    Restored(Result<(), std::io::Error>),
}

/// What a scope asks the embedding program to do next.
pub enum Step<S> {
    /// Read the attributes in force and report them.
    Capture,
    /// Write these attributes to the device at once.
    Apply(S),
    /// Run the body.
    Run,
    /// Write these attributes, which were in force before, back to the device.
    Restore(S),
    /// Leave the scope: with the value of the body, or with this error.
    Leave(Result<(), Error>),
    /// Nothing: the scope was left before.
    Nothing,
}

/// A scope and what it holds.
pub struct Plan<S> {
    /// The attributes to put in force inside the scope.
    pub target: S,
    /// Where the scope stands.
    pub stage: Stage<S>,
}

impl<S> Plan<S> {
    /// The step that the scope is waiting for a report on.
    pub open spec fn pending(self) -> Step<S> {
        match self.stage {
            Stage::Capturing => Step::Capture,
            Stage::Applying { previous } => Step::Apply(self.target),
            Stage::Running { previous } => Step::Run,
            Stage::Restoring { previous, failure } => Step::Restore(previous),
            Stage::Left => Step::Nothing,
        }
    }

    /// The scope after a report, and the step it asks for. A report that does
    /// not answer the pending step changes nothing, and the step is asked for
    /// again. Once the attributes in force have been captured, every path to
    /// `Step::Leave` leads through `Step::Restore` with those attributes.
    pub open spec fn next(self, report: Report<S>) -> (Plan<S>, Step<S>) {
        match (self.stage, report) {
            (Stage::Capturing, Report::Captured(Ok(previous))) => (
                Plan { stage: Stage::Applying { previous }, ..self },
                Step::Apply(self.target),
            ),
            (Stage::Capturing, Report::Captured(Err(cause))) => (
                Plan { stage: Stage::Left, ..self },
                Step::Leave(Err(Error::StateUnavailable(cause))),
            ),
            (Stage::Applying { previous }, Report::Applied(Ok(_))) => (
                Plan { stage: Stage::Running { previous }, ..self },
                Step::Run,
            ),
            (Stage::Applying { previous }, Report::Applied(Err(cause))) => (
                Plan {
                    stage: Stage::Restoring {
                        previous,
                        failure: Some(Error::StateUnavailable(cause)),
                    },
                    ..self
                },
                Step::Restore(previous),
            ),
            (Stage::Running { previous }, Report::Ran) => (
                Plan { stage: Stage::Restoring { previous, failure: None }, ..self },
                Step::Restore(previous),
            ),
            (Stage::Restoring { previous, failure }, Report::Restored(Ok(_))) => (
                Plan { stage: Stage::Left, ..self },
                Step::Leave(
                    match failure {
                        Some(error) => Err(error),
                        None => Ok(()),
                    },
                ),
            ),
            (Stage::Restoring { previous, failure }, Report::Restored(Err(cause))) => (
                Plan { stage: Stage::Left, ..self },
                Step::Leave(Err(Error::StateUnavailable(cause))),
            ),
            _ => (self, self.pending()),
        }
    }
}

/// A stretch of the program during which other attributes are in force: the
/// attributes found are captured, the target is written, the body runs, and
/// the attributes found are written back, whether or not the steps before
/// succeeded.
pub struct Scope<S> {
    target: S,
    stage: Stage<S>,
}

impl<S> View for Scope<S> {
    type V = Plan<S>;

    closed spec fn view(&self) -> Plan<S> {
        Plan { target: self.target, stage: self.stage }
    }
}

impl<S: Copy> Scope<S> {
    /// The step that the scope is waiting for a report on.
    pub fn pending(&self) -> (step: Step<S>)
        ensures
            step == self@.pending(),
    {
        match &self.stage {
            Stage::Capturing => Step::Capture,
            Stage::Applying { previous } => Step::Apply(self.target),
            Stage::Running { previous } => Step::Run,
            Stage::Restoring { previous, failure } => Step::Restore(*previous),
            Stage::Left => Step::Nothing,
        }
    }

    /// Takes a report and says what to do next.
    pub fn advance(&mut self, report: Report<S>) -> (step: Step<S>)
        ensures
            (final(self)@, step) == old(self)@.next(report),
    {
        let mut stage = Stage::Left;
        std::mem::swap(&mut self.stage, &mut stage);
        match (stage, report) {
            (Stage::Capturing, Report::Captured(Ok(previous))) => {
                self.stage = Stage::Applying { previous };
                Step::Apply(self.target)
            },
            (Stage::Capturing, Report::Captured(Err(cause))) => {
                Step::Leave(Err(Error::StateUnavailable(cause)))
            },
            (Stage::Applying { previous }, Report::Applied(Ok(_))) => {
                self.stage = Stage::Running { previous };
                Step::Run
            },
            (Stage::Applying { previous }, Report::Applied(Err(cause))) => {
                self.stage = Stage::Restoring {
                    previous,
                    failure: Some(Error::StateUnavailable(cause)),
                };
                Step::Restore(previous)
            },
            (Stage::Running { previous }, Report::Ran) => {
                self.stage = Stage::Restoring { previous, failure: None };
                Step::Restore(previous)
            },
            (Stage::Restoring { previous, failure }, Report::Restored(Ok(_))) => {
                match failure {
                    Some(error) => Step::Leave(Err(error)),
                    None => Step::Leave(Ok(())),
                }
            },
            (Stage::Restoring { previous, failure }, Report::Restored(Err(cause))) => {
                Step::Leave(Err(Error::StateUnavailable(cause)))
            },
            (stage, _) => {
                self.stage = stage;
                self.pending()
            },
        }
    }
}

/// Opens a scope in which `target` is to be in force. Its first step is
/// `Step::Capture`.
pub fn with_mode<S: Copy>(target: S) -> (scope: Scope<S>)
    ensures
        scope@ == (Plan { target, stage: Stage::Capturing }),
        scope@.pending() == Step::<S>::Capture,
{
    Scope { target, stage: Stage::Capturing }
}

/// Opens a scope in which the raw variant of `original` is to be in force.
pub fn raw_scope(original: &State) -> (scope: Scope<State>)
    ensures
        scope@.stage == Stage::<State>::Capturing,
        scope@.target@ == raw_attributes(original@),
{
    with_mode(original.raw())
}

/// The scope after a sequence of reports, and the steps it asked for in
/// answer to them, in order.
pub open spec fn run_plan<S>(plan: Plan<S>, reports: Seq<Report<S>>) -> (Plan<S>, Seq<Step<S>>)
    decreases reports.len(),
{
    if reports.len() == 0 {
        (plan, Seq::empty())
    } else {
        let (before, steps) = run_plan(plan, reports.drop_last());
        let (after, step) = before.next(reports.last());
        (after, steps.push(step))
    }
}

/// The attributes that the last of the given steps to write any asked to be
/// written to the device.
pub open spec fn last_written<S>(steps: Seq<Step<S>>) -> Option<S>
    decreases steps.len(),
{
    if steps.len() == 0 {
        None
    } else {
        match steps.last() {
            Step::Apply(attributes) => Some(attributes),
            Step::Restore(attributes) => Some(attributes),
            _ => last_written(steps.drop_last()),
        }
    }
}

/// A scope gives back what it found: once the attributes in force have been
/// captured, whatever is reported afterwards, the scope asks for no other
/// attributes to be written than its target and the captured ones, and when it
/// is left, the captured ones are those that it asked to be written last.
pub proof fn lemma_scope_restores<S>(target: S, previous: S, reports: Seq<Report<S>>)
    requires
        reports.len() > 0,
        reports[0] == Report::Captured(Ok::<S, std::io::Error>(previous)),
    ensures
        ({
            let start = Plan { target, stage: Stage::Capturing };
            let (end, steps) = run_plan(start, reports);
            &&& steps.len() == reports.len()
            &&& end.target == target
            &&& match end.stage {
                Stage::Capturing => false,
                Stage::Applying { previous: held } => held == previous && last_written(steps)
                    == Some(target),
                Stage::Running { previous: held } => held == previous && last_written(steps)
                    == Some(target),
                Stage::Restoring { previous: held, failure } => held == previous && last_written(
                    steps,
                ) == Some(previous),
                Stage::Left => last_written(steps) == Some(previous),
            }
        }),
    decreases reports.len(),
{
    let start = Plan { target, stage: Stage::Capturing };
    let front = reports.drop_last();
    if front.len() == 0 {
        assert(run_plan(start, front) == (start, Seq::<Step<S>>::empty()));
        let (end, steps) = run_plan(start, reports);
        assert(steps.drop_last() =~= Seq::<Step<S>>::empty());
    } else {
        assert(front[0] == reports[0]);
        lemma_scope_restores(target, previous, front);
        let (before, steps) = run_plan(start, front);
        let (after, step) = before.next(reports.last());
        assert(steps.push(step).drop_last() =~= steps);
    }
}

} // verus!
