use rs_script::supervisor::{
    clear_ctrl_c_handler, handle_interrupt, poll_step, set_ctrl_c_handler, InterruptAction,
    InterruptSlot, PollResult, PollStep,
};

#[test]
fn publish_replaces_previous_child() {
    let mut slot = InterruptSlot::new();
    assert_eq!(slot.current(), None);
    set_ctrl_c_handler(&mut slot, 10);
    set_ctrl_c_handler(&mut slot, 11);
    assert_eq!(slot.current(), Some(11));
    clear_ctrl_c_handler(&mut slot);
    assert_eq!(slot.current(), None);
}

#[test]
fn interrupt_kills_registered_child_and_clears() {
    let mut slot = InterruptSlot::new();
    set_ctrl_c_handler(&mut slot, 42);
    assert_eq!(handle_interrupt(&mut slot), InterruptAction::Kill(42));
    assert_eq!(slot.current(), None);
    assert_eq!(handle_interrupt(&mut slot), InterruptAction::ReRaise);
}

#[test]
fn slot_empty_after_every_way_of_returning() {
    // normal completion
    let mut slot = InterruptSlot::new();
    set_ctrl_c_handler(&mut slot, 1);
    assert_eq!(poll_step(&mut slot, PollResult::Running), PollStep::Wait);
    assert_eq!(slot.current(), Some(1));
    assert_eq!(poll_step(&mut slot, PollResult::Exited(Some(0))), PollStep::Done(Some(0)));
    assert_eq!(slot.current(), None);
    // polling failure
    set_ctrl_c_handler(&mut slot, 2);
    assert_eq!(poll_step(&mut slot, PollResult::Failed), PollStep::Error);
    assert_eq!(slot.current(), None);
    // external interrupt, then the killed child is reaped
    set_ctrl_c_handler(&mut slot, 3);
    assert_eq!(handle_interrupt(&mut slot), InterruptAction::Kill(3));
    assert_eq!(poll_step(&mut slot, PollResult::Exited(None)), PollStep::Done(None));
    assert_eq!(slot.current(), None);
}
