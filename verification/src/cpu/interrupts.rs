//! What the timer interrupt does to the kernel's state.

use vstd::prelude::*;
use crate::port::{PortWrite, port_write};
use super::pic;
use super::scheduler::{QUANTUM_TICKS, Scheduler, TaskSwitch, tick_state, tick_switch, valid_state};
use super::timer::Timer;

verus! {

/// One step the timer interrupt handler performs on the hardware.
#[derive(Clone, Copy, Debug, PartialEq, Eq)]
pub enum TimerStep {
    /// A port write.
    Write(PortWrite),
    /// A context switch.
    Switch(TaskSwitch),
}

/// The steps of the handler, in order, for a tick that finds the scheduler in
/// state `s`: the end of interrupt is signalled first, so that IRQ 0 keeps coming
/// in whichever task runs next, and then the context switch, if any, is made.
pub open spec fn timer_steps(s: (bool, int, int)) -> Seq<TimerStep> {
    seq![TimerStep::Write(port_write(0x20, 0x20))] + match tick_switch(s) {
        Some((from, to)) => seq![TimerStep::Switch(TaskSwitch { from: from as usize, to: to as usize })],
        None => Seq::empty(),
    }
}

/// Handles IRQ 0: counts the tick and lets the scheduler account for it, and
/// returns what must then be done on the hardware, in order: acknowledge the
/// interrupt at the controller, then switch tasks if the quantum is used up.
pub fn timer_handler(timer: &mut Timer, scheduler: &mut Scheduler) -> (steps: Vec<TimerStep>)
    requires
        old(timer).count() < u64::MAX,
    ensures
        final(timer).count() == old(timer).count() + 1,
        valid_state(final(scheduler).state()),
        final(scheduler).state() == tick_state(old(scheduler).state()),
        steps@ == timer_steps(old(scheduler).state()),
{
    timer.tick();
    let switch = scheduler.tick();
    let end_of_interrupt = pic::end_of_interrupt(0);
    let mut steps: Vec<TimerStep> = Vec::new();
    let mut i: usize = 0;
    while i < end_of_interrupt.len()
        invariant
            end_of_interrupt@ == pic::end_of_interrupt_program(0),
            i <= end_of_interrupt@.len(),
            steps@.len() == i,
            forall|j: int| 0 <= j < i ==> #[trigger] steps@[j] == TimerStep::Write(end_of_interrupt@[j]),
        decreases end_of_interrupt@.len() - i,
    {
        steps.push(TimerStep::Write(end_of_interrupt[i]));
        i = i + 1;
    }
    match switch {
        Some(sw) => steps.push(TimerStep::Switch(sw)),
        None => {},
    }
    assert(steps@ =~= timer_steps(old(scheduler).state()));
    steps
}

/// Every timer tick acknowledges IRQ 0 exactly once, before anything else; a
/// context switch, to the task after the current one, follows exactly when the
/// scheduler is initialized and the quantum is used up.
pub proof fn lemma_timer_acknowledges_first(s: (bool, int, int))
    ensures
        timer_steps(s).len() >= 1,
        timer_steps(s)[0] == TimerStep::Write(port_write(0x20, 0x20)),
        forall|k: int| 1 <= k < timer_steps(s).len() ==> #[trigger] timer_steps(s)[k] is Switch,
        s.0 && s.2 + 1 >= QUANTUM_TICKS ==> timer_steps(s).len() == 2 && timer_steps(s)[1] == (
        TimerStep::Switch(TaskSwitch { from: s.1 as usize, to: if s.1 == 1 { 2usize } else { 1usize } })),
        !(s.0 && s.2 + 1 >= QUANTUM_TICKS) ==> timer_steps(s).len() == 1,
{
}

} // verus!
