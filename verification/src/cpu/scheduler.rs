//! A preemptive round-robin scheduler over the boot task and two kernel tasks.

use vstd::prelude::*;

verus! {

/// Tasks known to the scheduler; task 0 is the boot context.
pub const TASK_COUNT: usize = 3;

/// Bytes of stack given to each kernel task.
pub const STACK_SIZE: usize = 16 * 1024;

/// Timer ticks a task runs before the next one is switched in.
pub const QUANTUM_TICKS: u64 = 10;

/// Words in the frame a new task starts from: six callee-saved registers
/// (r15, r14, r13, r12, rbx, rbp), then the return address.
pub const FRAME_WORDS: u64 = 7;

/// The saved stack pointer of a task that is not running.
#[derive(Clone, Copy, Debug)]
pub struct TaskContext {
    pub rsp: u64,
}

impl TaskContext {
    /// A context with no saved stack yet.
    pub fn empty() -> (c: TaskContext)
        ensures
            c.rsp == 0,
    {
        TaskContext { rsp: 0 }
    }
}

/// The stack a new task starts on: the stack pointer to load, and the words to
/// store at it, lowest address first.
pub struct InitialStack {
    pub rsp: u64,
    pub frame: Vec<u64>,
}

/// The frame a task entering at `entry` starts from: zeroed callee-saved
/// registers under the entry address.
pub open spec fn initial_frame(entry: u64) -> Seq<u64> {
    seq![0u64, 0u64, 0u64, 0u64, 0u64, 0u64, entry]
}

/// The initial stack of a task whose stack occupies `STACK_SIZE` bytes from
/// `stack_start` and which begins at `entry`: the frame sits just below the
/// 16-byte-aligned top of the stack.
pub fn make_task_stack(stack_start: u64, entry: u64) -> (s: InitialStack)
    requires
        stack_start + STACK_SIZE <= u64::MAX,
    ensures
        s.rsp == (stack_start + STACK_SIZE) - (stack_start + STACK_SIZE) % 16 - 8 * FRAME_WORDS,
        stack_start <= s.rsp,
        s.rsp + 8 * FRAME_WORDS <= stack_start + STACK_SIZE,
        (s.rsp + 8 * FRAME_WORDS) % 16 == 0,
        s.frame@ == initial_frame(entry),
{
    let top: u64 = stack_start + STACK_SIZE as u64;
    let aligned: u64 = top & !0xFu64;
    assert(aligned == top - top % 16) by (bit_vector)
        requires
            aligned == top & !0xFu64,
    ;
    let rsp: u64 = aligned - FRAME_WORDS * 8;
    let mut frame: Vec<u64> = Vec::new();
    frame.push(0);  // r15
    frame.push(0);  // r14
    frame.push(0);  // r13
    frame.push(0);  // r12
    frame.push(0);  // rbx
    frame.push(0);  // rbp
    frame.push(entry);  // return address
    assert(frame@ =~= initial_frame(entry));
    InitialStack { rsp, frame }
}

/// The task that follows `current` in the rotation: the two kernel tasks take
/// turns, and the boot task hands over to the first of them.
pub open spec fn next_task(current: int) -> int {
    if current == 1 {
        2
    } else {
        1
    }
}

/// Scheduler state as (initialized, current task, ticks of the current quantum).
pub open spec fn valid_state(s: (bool, int, int)) -> bool {
    0 <= s.1 < TASK_COUNT && 0 <= s.2 < QUANTUM_TICKS
}

/// The state after one timer tick: nothing changes before initialisation; the
/// quantum counts up, and once it is used up the next task becomes current.
pub open spec fn tick_state(s: (bool, int, int)) -> (bool, int, int) {
    if !s.0 {
        s
    } else if s.2 + 1 < QUANTUM_TICKS {
        (true, s.1, s.2 + 1)
    } else {
        (true, next_task(s.1), 0)
    }
}

/// The switch, from one task to another, that a tick in state `s` performs.
pub open spec fn tick_switch(s: (bool, int, int)) -> Option<(int, int)> {
    if s.0 && s.2 + 1 >= QUANTUM_TICKS {
        Some((s.1, next_task(s.1)))
    } else {
        None
    }
}

/// The state after `n` ticks.
pub open spec fn ticks_state(s: (bool, int, int), n: nat) -> (bool, int, int)
    decreases n,
{
    if n == 0 {
        s
    } else {
        tick_state(ticks_state(s, (n - 1) as nat))
    }
}

/// A context switch from task `from` to task `to`.
#[derive(Clone, Copy, Debug, PartialEq, Eq)]
pub struct TaskSwitch {
    pub from: usize,
    pub to: usize,
}

/// Which task runs, and how much of its quantum it has used.
pub struct Scheduler {
    initialized: bool,
    current_task: usize,
    quantum: u64,
}

impl Scheduler {
    /// The state as (initialized, current task, ticks of the current quantum).
    pub closed spec fn state(&self) -> (bool, int, int) {
        (self.initialized, self.current_task as int, self.quantum as int)
    }

    /// The current task is one of the three, and the quantum is not used up.
    #[verifier::type_invariant]
    spec fn inv(&self) -> bool {
        valid_state(self.state())
    }

    /// A scheduler that has not been initialized, running the boot task.
    pub fn new() -> (s: Scheduler)
        ensures
            s.state() == (false, 0int, 0int),
    {
        Scheduler { initialized: false, current_task: 0, quantum: 0 }
    }

    /// Marks the scheduler initialized. Returns whether this call did so; a
    /// second call changes nothing and returns `false`, and the caller then must
    /// not build the task stacks again.
    pub fn init(&mut self) -> (first: bool)
        ensures
            first == !old(self).state().0,
            final(self).state() == (true, old(self).state().1, old(self).state().2),
            valid_state(final(self).state()),
    {
        proof {
            use_type_invariant(&*self);
        }
        if self.initialized {
            return false;
        }
        self.initialized = true;
        true
    }

    /// The task currently running.
    pub fn current_task(&self) -> (t: usize)
        ensures
            t == self.state().1,
            t < TASK_COUNT,
    {
        proof {
            use_type_invariant(self);
        }
        self.current_task
    }

    /// Handles one timer tick: returns the context switch to perform, if the
    /// current task's quantum is used up.
    pub fn tick(&mut self) -> (switch: Option<TaskSwitch>)
        ensures
            valid_state(old(self).state()),
            valid_state(final(self).state()),
            final(self).state() == tick_state(old(self).state()),
            switch.is_some() == tick_switch(old(self).state()).is_some(),
            switch.is_some() ==> tick_switch(old(self).state()) == Some(
                (switch.unwrap().from as int, switch.unwrap().to as int),
            ),
    {
        proof {
            use_type_invariant(&*self);
        }
        if !self.initialized {
            return None;
        }
        let quantum: u64 = self.quantum + 1;
        if quantum < QUANTUM_TICKS {
            self.quantum = quantum;
            return None;
        }
        self.quantum = 0;
        let current: usize = self.current_task;
        let next: usize = match current {
            0 => 1,
            1 => 2,
            _ => 1,
        };
        self.current_task = next;
        Some(TaskSwitch { from: current, to: next })
    }
}

proof fn lemma_ticks_within_quantum(s: (bool, int, int), k: nat)
    requires
        valid_state(s),
        s.0,
        k <= QUANTUM_TICKS - 1 - s.2,
    ensures
        ticks_state(s, k) == (true, s.1, s.2 + k),
    decreases k,
{
    if k > 0 {
        lemma_ticks_within_quantum(s, (k - 1) as nat);
    }
}

/// Once initialized, the scheduler switches tasks on exactly every
/// `QUANTUM_TICKS`-th tick: from a state that has used `q` ticks of its quantum,
/// the next `QUANTUM_TICKS - 1 - q` ticks switch nothing, the tick after them
/// switches to the next task, and the new task starts a fresh quantum.
pub proof fn lemma_switch_every_quantum(s: (bool, int, int), k: nat)
    requires
        valid_state(s),
        s.0,
        k <= QUANTUM_TICKS - 1 - s.2,
    ensures
        k < QUANTUM_TICKS - 1 - s.2 ==> tick_switch(ticks_state(s, k)) is None,
        k == QUANTUM_TICKS - 1 - s.2 ==> tick_switch(ticks_state(s, k)) == Some((s.1, next_task(s.1))),
        k == QUANTUM_TICKS - 1 - s.2 ==> ticks_state(s, k + 1) == (true, next_task(s.1), 0int),
{
    lemma_ticks_within_quantum(s, k);
}

/// Before initialisation no number of ticks changes the state or switches tasks.
pub proof fn lemma_no_switch_before_init(s: (bool, int, int), n: nat)
    requires
        !s.0,
    ensures
        ticks_state(s, n) == s,
        tick_switch(ticks_state(s, n)) is None,
    decreases n,
{
    if n > 0 {
        lemma_no_switch_before_init(s, (n - 1) as nat);
    }
}

/// The boot task is never switched back in, and the kernel tasks take turns:
/// every switch goes to task 1 or 2, never to the task that was running, and two
/// switches in a row from a kernel task come back to it.
pub proof fn lemma_round_robin(t: int)
    ensures
        next_task(t) == 1 || next_task(t) == 2,
        next_task(t) != t,
        t == 1 || t == 2 ==> next_task(next_task(t)) == t,
{
}

} // verus!
