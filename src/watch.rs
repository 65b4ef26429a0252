//! The refresh loop of watch mode, as a machine from state and event to
//! next state and action. The caller performs each action and reports what
//! came of it; every cycle runs a fresh render pass.
use vstd::prelude::*;

verus! {

/// Where the loop stands.
#[derive(Clone, Copy, Debug, PartialEq, Eq, Structural)]
pub enum LoopState {
    Idle,
    Fetching,
    Rendering,
    Sleeping,
    Terminated,
}

/// What the caller reports to the loop.
#[derive(Clone, Copy, Debug, PartialEq, Eq, Structural)]
pub enum LoopEvent {
    /// The loop is to begin.
    Started,
    /// Every quote of the pass was fetched and the table laid out.
    PassSucceeded,
    /// A fetch of the pass failed.
    PassFailed,
    /// The table was shown.
    Shown,
    /// The delay has run out.
    DelayElapsed,
    /// The operator asked the loop to stop.
    Interrupted,
}

/// What the caller is to do next.
#[derive(Clone, Copy, Debug, PartialEq, Eq, Structural)]
pub enum LoopAction {
    /// Run a fresh render pass.
    RunPass,
    /// Show the table of the pass.
    ShowTable,
    /// Report the failed fetch, keep the last table shown, and sleep.
    ReportErrorAndSleep(u64),
    /// Sleep for this many seconds, interruptibly.
    Sleep(u64),
    /// Leave the loop.
    Exit,
    /// Nothing: the event does not apply in this state.
    Wait,
}

/// A fetch failure within the loop is reported and the loop goes on to
/// the next cycle: network blips between refreshes are expected.
pub open spec fn next(state: LoopState, event: LoopEvent, delay: u64) -> (LoopState, LoopAction) {
    match (state, event) {
        (LoopState::Terminated, _) => (LoopState::Terminated, LoopAction::Wait),
        (_, LoopEvent::Interrupted) => (LoopState::Terminated, LoopAction::Exit),
        (LoopState::Idle, LoopEvent::Started) => (LoopState::Fetching, LoopAction::RunPass),
        (LoopState::Fetching, LoopEvent::PassSucceeded) => (
            LoopState::Rendering,
            LoopAction::ShowTable,
        ),
        (LoopState::Fetching, LoopEvent::PassFailed) => (
            LoopState::Sleeping,
            LoopAction::ReportErrorAndSleep(delay),
        ),
        (LoopState::Rendering, LoopEvent::Shown) => (LoopState::Sleeping, LoopAction::Sleep(delay)),
        (LoopState::Sleeping, LoopEvent::DelayElapsed) => (
            LoopState::Fetching,
            LoopAction::RunPass,
        ),
        (s, _) => (s, LoopAction::Wait),
    }
}

/// The loop: its state and the delay between passes, in seconds.
#[derive(Clone, Copy, Debug)]
pub struct RefreshLoop {
    pub state: LoopState,
    pub delay_secs: u64,
}

impl RefreshLoop {
    pub open spec fn wf(&self) -> bool {
        self.delay_secs > 0
    }

    /// A loop that waits `delay_secs` between passes; `None` for a delay of
    /// zero, which would make it spin.
    pub fn new(delay_secs: u64) -> (r: Option<RefreshLoop>)
        ensures
            delay_secs == 0 ==> r is None,
            delay_secs > 0 ==> r == Some(RefreshLoop { state: LoopState::Idle, delay_secs }),
    {
        if delay_secs == 0 {
            None
        } else {
            Some(RefreshLoop { state: LoopState::Idle, delay_secs })
        }
    }

    /// Takes one event and answers the action to perform.
    pub fn step(&mut self, event: LoopEvent) -> (r: LoopAction)
        requires
            old(self).wf(),
        ensures
            final(self).wf(),
            final(self).delay_secs == old(self).delay_secs,
            (final(self).state, r) == next(old(self).state, event, old(self).delay_secs),
    {
        let delay = self.delay_secs;
        let (state, action) = match (self.state, event) {
            (LoopState::Terminated, _) => (LoopState::Terminated, LoopAction::Wait),
            (_, LoopEvent::Interrupted) => (LoopState::Terminated, LoopAction::Exit),
            (LoopState::Idle, LoopEvent::Started) => (LoopState::Fetching, LoopAction::RunPass),
            (LoopState::Fetching, LoopEvent::PassSucceeded) => (
                LoopState::Rendering,
                LoopAction::ShowTable,
            ),
            (LoopState::Fetching, LoopEvent::PassFailed) => (
                LoopState::Sleeping,
                LoopAction::ReportErrorAndSleep(delay),
            ),
            (LoopState::Rendering, LoopEvent::Shown) => (
                LoopState::Sleeping,
                LoopAction::Sleep(delay),
            ),
            (LoopState::Sleeping, LoopEvent::DelayElapsed) => (
                LoopState::Fetching,
                LoopAction::RunPass,
            ),
            (s, _) => (s, LoopAction::Wait),
        };
        self.state = state;
        action
    }
}

/// The loop never ends on its own: only an interruption leads to
/// `Terminated`, which it then keeps; every sleep it asks for is positive.
pub proof fn lemma_only_interruption_terminates(state: LoopState, event: LoopEvent, delay: u64)
    requires
        delay > 0,
    ensures
        state != LoopState::Terminated && next(state, event, delay).0 == LoopState::Terminated
            ==> event == LoopEvent::Interrupted,
        state == LoopState::Terminated ==> next(state, event, delay).0 == LoopState::Terminated,
        next(state, event, delay).1 matches LoopAction::Sleep(d) ==> d > 0,
        next(state, event, delay).1 matches LoopAction::ReportErrorAndSleep(d) ==> d > 0,
{
}

} // verus!
