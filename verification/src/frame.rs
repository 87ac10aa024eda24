//! The decisions of the frame loop.
//!
//! The loop itself belongs to the host: it waits for the windowing backend,
//! tells the [`FrameDriver`] what arrived, and does what the driver answers.
//! The driver holds the phase of the loop and nothing else, so every run of
//! it can be reasoned about as a sequence of inputs.

use vstd::prelude::*;

verus! {

/// Where the loop stands.
#[derive(Clone, Copy, Debug, PartialEq, Eq, Structural)]
pub enum Phase {
    /// The backend has not yet said that the loop started.
    Starting,
    /// Events are taken as they come.
    Idle,
    /// All pending events were handed on; the timing gate has been asked and
    /// has not answered yet.
    FrameReady,
    /// A close request came. Nothing happens any more.
    Exiting,
}

/// What the host reports to the driver.
#[derive(Clone, Copy, Debug, PartialEq, Eq, Structural)]
pub enum Input {
    /// The backend signals that the loop has started.
    Init,
    /// The backend woke up for new events; there is nothing to do yet.
    Wake,
    /// The user asked for the window to close.
    CloseRequested,
    /// Any other event of the window.
    Window,
    /// An event that does not belong to the window.
    Other,
    /// Every pending event has been delivered.
    EventsCleared,
    /// The timing gate's answer: whether it is time for the next frame.
    Gate { advance: bool },
}

/// What the host is to do in answer to an input.
#[derive(Clone, Copy, Debug, PartialEq, Eq, Structural)]
pub enum Action {
    /// Nothing.
    Nothing,
    /// Call the application's init hook.
    Init,
    /// Call the application's close hook and leave the loop.
    Close,
    /// Hand the event on: to the GUI backend first if `to_gui`, then to the
    /// input trackers, then to the application's event hook. The trackers
    /// and the application get the event whatever the GUI backend made of
    /// it.
    Forward { to_gui: bool },
    /// Ask the timing gate and report its answer as [`Input::Gate`].
    AskGate,
    /// Call the application's update hook, then start the next frame of the
    /// input trackers.
    Frame,
}

/// One thing the host does. An [`Action`] is a short list of these, to be
/// done in order.
#[derive(Clone, Copy, Debug, PartialEq, Eq, Structural)]
pub enum Step {
    /// Call the application's init hook.
    AppInit,
    /// Call the application's close hook.
    AppClose,
    /// Leave the event loop.
    LeaveLoop,
    /// Hand the event to the GUI backend's event filter.
    GuiEvent,
    /// Hand the event to the input trackers.
    TrackEvent,
    /// Call the application's event hook with the event.
    AppEvent,
    /// Ask the timing gate whether it is time for a frame.
    AskGate,
    /// Call the application's update hook.
    AppUpdate,
    /// Start the next frame of the input trackers.
    NextFrame,
}

impl Action {
    /// The steps of an action, in the order they are to be done.
    ///
    /// The trackers start their next frame only after the application's
    /// update has run, so the update sees what the frame collected.
    pub open spec fn spec_steps(self) -> Seq<Step> {
        match self {
            Action::Nothing => seq![],
            Action::Init => seq![Step::AppInit],
            Action::Close => seq![Step::AppClose, Step::LeaveLoop],
            Action::Forward { to_gui } => if to_gui {
                seq![Step::GuiEvent, Step::TrackEvent, Step::AppEvent]
            } else {
                seq![Step::TrackEvent, Step::AppEvent]
            },
            Action::AskGate => seq![Step::AskGate],
            Action::Frame => seq![Step::AppUpdate, Step::NextFrame],
        }
    }

    /// Computes [`Self::spec_steps`].
    pub fn steps(self) -> (steps: Vec<Step>)
        ensures
            steps@ == self.spec_steps(),
    {
        let mut steps: Vec<Step> = Vec::new();
        match self {
            Action::Nothing => {},
            Action::Init => {
                steps.push(Step::AppInit);
            },
            Action::Close => {
                steps.push(Step::AppClose);
                steps.push(Step::LeaveLoop);
            },
            Action::Forward { to_gui } => {
                if to_gui {
                    steps.push(Step::GuiEvent);
                }
                steps.push(Step::TrackEvent);
                steps.push(Step::AppEvent);
            },
            Action::AskGate => {
                steps.push(Step::AskGate);
            },
            Action::Frame => {
                steps.push(Step::AppUpdate);
                steps.push(Step::NextFrame);
            },
        }
        assert(steps@ =~= self.spec_steps());
        steps
    }
}

/// The order within an action: the GUI backend sees an event before the
/// trackers do, the trackers before the application; the trackers start
/// their next frame only right after an update; the loop is left only right
/// after the close hook.
pub proof fn lemma_order_of_steps(action: Action, i: int)
    requires
        0 <= i < action.spec_steps().len(),
    ensures
        action.spec_steps()[i] == Step::GuiEvent ==> i == 0 && action.spec_steps()[1]
            == Step::TrackEvent,
        action.spec_steps()[i] == Step::AppEvent ==> i > 0 && action.spec_steps()[i - 1]
            == Step::TrackEvent,
        action.spec_steps()[i] == Step::NextFrame ==> i > 0 && action.spec_steps()[i - 1]
            == Step::AppUpdate,
        action.spec_steps()[i] == Step::LeaveLoop ==> i > 0 && action.spec_steps()[i - 1]
            == Step::AppClose,
        action.spec_steps()[i] == Step::AppUpdate ==> action == Action::Frame,
        action.spec_steps()[i] == Step::AppClose ==> action == Action::Close,
{
}

/// The answer to `input` in phase `Idle`, and the phase that follows.
pub open spec fn idle_transition(input: Input) -> (Phase, Action) {
    match input {
        Input::Init => (Phase::Idle, Action::Nothing),
        Input::Wake => (Phase::Idle, Action::Nothing),
        Input::CloseRequested => (Phase::Exiting, Action::Close),
        Input::Window => (Phase::Idle, Action::Forward { to_gui: true }),
        Input::Other => (Phase::Idle, Action::Forward { to_gui: false }),
        Input::EventsCleared => (Phase::FrameReady, Action::AskGate),
        Input::Gate { advance } => (Phase::Idle, Action::Nothing),
    }
}

/// The answer to `input` in `phase`, and the phase that follows.
///
/// - Once exiting, nothing is answered to anything.
/// - A close request ends the run from every other phase.
/// - Before the loop has started, only its start is answered, with the init
///   hook.
/// - While a gate answer is awaited, that answer decides whether a frame is
///   run; anything else that arrives instead is taken as in `Idle`, and the
///   frame is not run.
pub open spec fn transition(phase: Phase, input: Input) -> (Phase, Action) {
    match phase {
        Phase::Exiting => (Phase::Exiting, Action::Nothing),
        Phase::Starting => match input {
            Input::Init => (Phase::Idle, Action::Init),
            Input::CloseRequested => (Phase::Exiting, Action::Close),
            _ => (Phase::Starting, Action::Nothing),
        },
        Phase::Idle => idle_transition(input),
        Phase::FrameReady => match input {
            Input::Gate { advance } => if advance {
                (Phase::Idle, Action::Frame)
            } else {
                (Phase::Idle, Action::Nothing)
            },
            _ => idle_transition(input),
        },
    }
}

/// The phase after the driver has taken each of `inputs` in turn, starting
/// in `start`.
pub open spec fn phase_after(start: Phase, inputs: Seq<Input>) -> Phase
    decreases inputs.len(),
{
    if inputs.len() == 0 {
        start
    } else {
        transition(phase_after(start, inputs.drop_last()), inputs.last()).0
    }
}

/// The driver's answer to the input at `index` of a run that starts in
/// `start`.
pub open spec fn action_at(start: Phase, inputs: Seq<Input>, index: int) -> Action {
    transition(phase_after(start, inputs.take(index)), inputs[index]).1
}

/// Once exiting, always exiting.
pub proof fn lemma_exiting_is_terminal(inputs: Seq<Input>)
    ensures
        phase_after(Phase::Exiting, inputs) == Phase::Exiting,
    decreases inputs.len(),
{
    if inputs.len() > 0 {
        lemma_exiting_is_terminal(inputs.drop_last());
    }
}

/// After a close request the run is in phase `Exiting`, wherever it started
/// and whatever else arrived.
pub proof fn lemma_exiting_after_close_request(start: Phase, inputs: Seq<Input>, i: int)
    requires
        0 <= i < inputs.len(),
        inputs[i] == Input::CloseRequested,
    ensures
        phase_after(start, inputs) == Phase::Exiting,
    decreases inputs.len(),
{
    if i == inputs.len() - 1 {
    } else {
        lemma_exiting_after_close_request(start, inputs.drop_last(), i);
    }
}

/// Before the first close request a run that did not start in `Exiting` is
/// not in `Exiting`.
pub proof fn lemma_live_before_close_request(start: Phase, inputs: Seq<Input>)
    requires
        start != Phase::Exiting,
        forall|k: int| 0 <= k < inputs.len() ==> inputs[k] != Input::CloseRequested,
    ensures
        phase_after(start, inputs) != Phase::Exiting,
    decreases inputs.len(),
{
    if inputs.len() > 0 {
        lemma_live_before_close_request(start, inputs.drop_last());
    }
}

/// The close hook is called for a close request and for nothing else.
pub proof fn lemma_close_only_on_request(phase: Phase, input: Input)
    ensures
        transition(phase, input).1 == Action::Close ==> input == Input::CloseRequested,
        transition(phase, input).1 == Action::Close ==> phase != Phase::Exiting,
{
}

/// The first close request of a run calls the close hook, and after it the
/// driver answers `Nothing` to every input: the close hook is called exactly
/// once, and no update, no forwarding and no second close follows, whatever
/// is still queued.
///
/// `first` is the place of the first close request in `inputs`; the run
/// starts in any phase but `Exiting`.
pub proof fn lemma_close_request_ends_the_run(start: Phase, inputs: Seq<Input>, first: int)
    requires
        start != Phase::Exiting,
        0 <= first < inputs.len(),
        inputs[first] == Input::CloseRequested,
        forall|k: int| 0 <= k < first ==> inputs[k] != Input::CloseRequested,
    ensures
        action_at(start, inputs, first) == Action::Close,
        forall|k: int| 0 <= k < first ==> action_at(start, inputs, k) != Action::Close,
        forall|k: int| first < k < inputs.len() ==> action_at(start, inputs, k) == Action::Nothing,
        phase_after(start, inputs) == Phase::Exiting,
{
    lemma_live_before_close_request(start, inputs.take(first));
    assert forall|k: int| 0 <= k < first implies action_at(start, inputs, k) != Action::Close by {
        lemma_close_only_on_request(phase_after(start, inputs.take(k)), inputs[k]);
    }
    assert forall|k: int| first < k < inputs.len() implies action_at(start, inputs, k)
        == Action::Nothing by {
        lemma_exiting_after_close_request(start, inputs.take(k), first);
    }
    lemma_exiting_after_close_request(start, inputs, first);
}

/// A run from `Starting` is in `Starting` until its first `Init` or close
/// request.
pub proof fn lemma_starting_until_init(inputs: Seq<Input>)
    requires
        forall|k: int|
            0 <= k < inputs.len() ==> inputs[k] != Input::Init && inputs[k]
                != Input::CloseRequested,
    ensures
        phase_after(Phase::Starting, inputs) == Phase::Starting,
    decreases inputs.len(),
{
    if inputs.len() > 0 {
        lemma_starting_until_init(inputs.drop_last());
    }
}

/// A run never comes back to `Starting`.
pub proof fn lemma_no_way_back_to_starting(start: Phase, inputs: Seq<Input>)
    requires
        start != Phase::Starting,
    ensures
        phase_after(start, inputs) != Phase::Starting,
    decreases inputs.len(),
{
    if inputs.len() > 0 {
        lemma_no_way_back_to_starting(start, inputs.drop_last());
    }
}

/// A run splits: the phase after `inputs` is the phase after its first
/// `cut` inputs, run on from there with the rest.
pub proof fn lemma_phase_after_split(start: Phase, inputs: Seq<Input>, cut: int)
    requires
        0 <= cut <= inputs.len(),
    ensures
        phase_after(start, inputs) == phase_after(
            phase_after(start, inputs.take(cut)),
            inputs.skip(cut),
        ),
    decreases inputs.len() - cut,
{
    if cut == inputs.len() {
        assert(inputs.take(cut) =~= inputs);
        assert(inputs.skip(cut).len() == 0);
    } else {
        lemma_phase_after_split(start, inputs.drop_last(), cut);
        assert(inputs.drop_last().take(cut) =~= inputs.take(cut));
        assert(inputs.drop_last().skip(cut) =~= inputs.skip(cut).drop_last());
        assert(inputs.skip(cut).last() == inputs.last());
    }
}

/// In a run from `Starting` the init hook is called at most once, and
/// before every frame: if the driver answers `Frame` at `at`, it answered
/// `Init` at some earlier place, and at no two places does it answer `Init`.
pub proof fn lemma_init_once_and_before_frames(inputs: Seq<Input>, at: int)
    requires
        0 <= at < inputs.len(),
    ensures
        action_at(Phase::Starting, inputs, at) == Action::Frame ==> exists|i: int|
            0 <= i < at && #[trigger] action_at(Phase::Starting, inputs, i) == Action::Init,
        forall|i: int, j: int|
            0 <= i < j < inputs.len() && #[trigger] action_at(Phase::Starting, inputs, i)
                == Action::Init ==> #[trigger] action_at(Phase::Starting, inputs, j)
                != Action::Init,
{
    if action_at(Phase::Starting, inputs, at) == Action::Frame {
        let before = inputs.take(at);
        assert(phase_after(Phase::Starting, before) == Phase::FrameReady);
        lemma_left_starting_by_init(before);
        let i = choose|i: int|
            0 <= i < before.len() && #[trigger] action_at(Phase::Starting, before, i)
                == Action::Init;
        assert(before.take(i) =~= inputs.take(i));
        assert(action_at(Phase::Starting, inputs, i) == Action::Init);
    }
    assert forall|i: int, j: int|
        0 <= i < j < inputs.len() && #[trigger] action_at(Phase::Starting, inputs, i)
            == Action::Init implies #[trigger] action_at(Phase::Starting, inputs, j)
        != Action::Init by {
        let mid = phase_after(Phase::Starting, inputs.take(i + 1));
        assert(inputs.take(i + 1).drop_last() =~= inputs.take(i));
        assert(mid == Phase::Idle);
        lemma_phase_after_split(Phase::Starting, inputs.take(j), i + 1);
        assert(inputs.take(j).take(i + 1) =~= inputs.take(i + 1));
        lemma_no_way_back_to_starting(mid, inputs.take(j).skip(i + 1));
    }
}

/// A run from `Starting` that stands in `Idle` or `FrameReady` has answered
/// `Init` on the way.
pub proof fn lemma_left_starting_by_init(inputs: Seq<Input>)
    requires
        phase_after(Phase::Starting, inputs) == Phase::Idle || phase_after(
            Phase::Starting,
            inputs,
        ) == Phase::FrameReady,
    ensures
        exists|i: int|
            0 <= i < inputs.len() && #[trigger] action_at(Phase::Starting, inputs, i)
                == Action::Init,
    decreases inputs.len(),
{
    if inputs.len() == 0 {
    } else {
        let last = inputs.len() - 1;
        let front = inputs.drop_last();
        assert(inputs.take(last) =~= front);
        if phase_after(Phase::Starting, front) == Phase::Starting {
            assert(action_at(Phase::Starting, inputs, last) == Action::Init);
        } else {
            lemma_left_starting_by_init(front);
            let i = choose|i: int|
                0 <= i < front.len() && #[trigger] action_at(Phase::Starting, front, i)
                    == Action::Init;
            assert(front.take(i) =~= inputs.take(i));
            assert(action_at(Phase::Starting, inputs, i) == Action::Init);
        }
    }
}

/// A frame is run only in answer to a gate that says so, and only when all
/// pending events had been handed on just before: the input before the
/// gate's answer was `EventsCleared`.
pub proof fn lemma_frame_follows_cleared_events(start: Phase, inputs: Seq<Input>, at: int)
    requires
        start != Phase::FrameReady,
        0 <= at < inputs.len(),
        action_at(start, inputs, at) == Action::Frame,
    ensures
        inputs[at] == (Input::Gate { advance: true }),
        at > 0,
        inputs[at - 1] == Input::EventsCleared,
{
    let before = inputs.take(at);
    assert(phase_after(start, before) == Phase::FrameReady);
    assert(before.len() > 0);
    assert(before.last() == inputs[at - 1]);
}

/// Holds the phase of the frame loop and answers each input with the action
/// the host is to take.
pub struct FrameDriver {
    phase: Phase,
}

impl View for FrameDriver {
    type V = Phase;

    closed spec fn view(&self) -> Phase {
        self.phase
    }
}

impl FrameDriver {
    /// A driver for a loop that has not started yet.
    pub fn new() -> (driver: FrameDriver)
        ensures
            driver@ == Phase::Starting,
    {
        FrameDriver { phase: Phase::Starting }
    }

    /// The phase the loop is in.
    pub fn phase(&self) -> (phase: Phase)
        ensures
            phase == self@,
    {
        self.phase
    }

    /// Whether a close request has ended the run.
    pub fn is_exiting(&self) -> (exiting: bool)
        ensures
            exiting == (self@ == Phase::Exiting),
    {
        match self.phase {
            Phase::Exiting => true,
            _ => false,
        }
    }

    /// Takes one input: moves to the phase that follows and answers with the
    /// action for the host, both as [`transition`] gives them.
    pub fn step(&mut self, input: Input) -> (action: Action)
        ensures
            final(self)@ == transition(old(self)@, input).0,
            action == transition(old(self)@, input).1,
    {
        let (next, action) = match self.phase {
            Phase::Exiting => (Phase::Exiting, Action::Nothing),
            Phase::Starting => match input {
                Input::Init => (Phase::Idle, Action::Init),
                Input::CloseRequested => (Phase::Exiting, Action::Close),
                _ => (Phase::Starting, Action::Nothing),
            },
            Phase::Idle => Self::step_idle(input),
            Phase::FrameReady => match input {
                Input::Gate { advance } => if advance {
                    (Phase::Idle, Action::Frame)
                } else {
                    (Phase::Idle, Action::Nothing)
                },
                _ => Self::step_idle(input),
            },
        };
        self.phase = next;
        action
    }

    fn step_idle(input: Input) -> (next: (Phase, Action))
        ensures
            next == idle_transition(input),
    {
        match input {
            Input::Init => (Phase::Idle, Action::Nothing),
            Input::Wake => (Phase::Idle, Action::Nothing),
            Input::CloseRequested => (Phase::Exiting, Action::Close),
            Input::Window => (Phase::Idle, Action::Forward { to_gui: true }),
            Input::Other => (Phase::Idle, Action::Forward { to_gui: false }),
            Input::EventsCleared => (Phase::FrameReady, Action::AskGate),
            Input::Gate { advance: _ } => (Phase::Idle, Action::Nothing),
        }
    }
}

} // verus!
