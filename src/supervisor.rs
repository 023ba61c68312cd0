//! The decisions of the process supervisor: which child an interrupt cancels, and when a
//! polled child is done.
//!
//! The process-wide slot is an explicit value: the caller owns it (behind a lock) and hands
//! it to each decision below, performing the action that comes back.
use vstd::prelude::*;

verus! {

/// The child process currently eligible for cancellation by an interrupt, if any.
///
/// Holding a child and being armed to cancel it are one and the same: the slot is armed
/// exactly when it holds a child.
pub struct InterruptSlot {
    current: Option<u32>,
}

impl View for InterruptSlot {
    type V = Option<u32>;

    closed spec fn view(&self) -> Option<u32> {
        self.current
    }
}

impl InterruptSlot {
    /// A slot that holds no child.
    pub fn new() -> (r: Self)
        ensures
            r@ is None,
    {
        InterruptSlot { current: None }
    }

    /// The child the slot holds, if any.
    pub fn current(&self) -> (r: Option<u32>)
        ensures
            r == self@,
    {
        self.current
    }
}

/// Publishes `child` as the one to cancel on interrupt, replacing any earlier entry.
pub fn set_ctrl_c_handler(slot: &mut InterruptSlot, child: u32)
    ensures
        final(slot)@ == Some(child),
{
    slot.current = Some(child);
}

/// Empties the slot and disarms cancellation.
pub fn clear_ctrl_c_handler(slot: &mut InterruptSlot)
    ensures
        final(slot)@ is None,
{
    slot.current = None;
}

/// What to do when the external interrupt arrives.
#[derive(Clone, Copy, Debug, PartialEq, Eq, Structural)]
pub enum InterruptAction {
    /// Request termination of this child.
    Kill(u32),
    /// No child is registered: raise the interrupt again with the default disposition, so
    /// the whole tool ends.
    ReRaise,
}

/// Decides the response to an interrupt: the registered child is cancelled and the slot
/// cleared; with no child registered the interrupt ends the tool.
pub fn handle_interrupt(slot: &mut InterruptSlot) -> (r: InterruptAction)
    ensures
        final(slot)@ is None,
        r == match old(slot)@ {
            Some(c) => InterruptAction::Kill(c),
            None => InterruptAction::ReRaise,
        },
{
    match slot.current.take() {
        Some(c) => InterruptAction::Kill(c),
        None => InterruptAction::ReRaise,
    }
}

/// What one poll of the running child reported.
#[derive(Clone, Copy, Debug, PartialEq, Eq, Structural)]
pub enum PollResult {
    /// Still running.
    Running,
    /// Exited, with its exit code when it had one.
    Exited(Option<i32>),
    /// Polling itself failed.
    Failed,
}

/// What the supervisor does after a poll.
#[derive(Clone, Copy, Debug, PartialEq, Eq, Structural)]
pub enum PollStep {
    /// Wait a short interval and poll again.
    Wait,
    /// Return the child's exit code, when it had one.
    Done(Option<i32>),
    /// Return a polling error.
    Error,
}

/// Whether the supervisor returns after this step.
pub open spec fn ends_run(s: PollStep) -> bool {
    !(s is Wait)
}

/// Decides the supervisor's next step from a poll. Whenever it returns, by completion or by
/// a polling error, the slot has been cleared first.
pub fn poll_step(slot: &mut InterruptSlot, poll: PollResult) -> (r: PollStep)
    ensures
        r == match poll {
            PollResult::Running => PollStep::Wait,
            PollResult::Exited(code) => PollStep::Done(code),
            PollResult::Failed => PollStep::Error,
        },
        ends_run(r) ==> final(slot)@ is None,
        !ends_run(r) ==> final(slot)@ == old(slot)@,
{
    match poll {
        PollResult::Running => PollStep::Wait,
        PollResult::Exited(code) => {
            clear_ctrl_c_handler(slot);
            PollStep::Done(code)
        },
        PollResult::Failed => {
            clear_ctrl_c_handler(slot);
            PollStep::Error
        },
    }
}

/// One thing that can happen while a child is supervised.
pub enum SupervisorEvent {
    Interrupt,
    Poll(PollResult),
}

/// The slot after a run of events that starts from the slot `start`, and whether the
/// supervisor has returned by then.
pub open spec fn after_events(start: Option<u32>, events: Seq<SupervisorEvent>) -> (Option<u32>, bool)
    decreases events.len(),
{
    if events.len() == 0 {
        (start, false)
    } else {
        let (slot, done) = after_events(start, events.drop_last());
        if done {
            (slot, true)
        } else {
            match events.last() {
                SupervisorEvent::Interrupt => (None, false),
                SupervisorEvent::Poll(PollResult::Running) => (slot, false),
                SupervisorEvent::Poll(_) => (None, true),
            }
        }
    }
}

/// However the supervised run ends (the child exits, polling fails, or an interrupt
/// cancelled the child first), once the supervisor has returned the slot is empty.
pub proof fn law_slot_empty_after_return(child: u32, events: Seq<SupervisorEvent>)
    ensures
        after_events(Some(child), events).1 ==> after_events(Some(child), events).0 is None,
    decreases events.len(),
{
    if events.len() > 0 {
        law_slot_empty_after_return(child, events.drop_last());
    }
}

} // verus!
