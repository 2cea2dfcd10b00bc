use oxide_os::cpu;
use oxide_os::cpu::interrupts::{timer_handler, TimerStep};
use oxide_os::cpu::pic::{end_of_interrupt, PIC1_OFFSET, PIC2_OFFSET};
use oxide_os::cpu::scheduler::{make_task_stack, Scheduler, TaskContext, TaskSwitch, QUANTUM_TICKS};
use oxide_os::cpu::timer::{frequency_hz, wait_over, Timer};
use oxide_os::port::PortWrite;

fn w(port: u16, value: u8) -> PortWrite {
    PortWrite { port, value }
}

#[test]
fn frequency_is_100_hz() {
    assert_eq!(frequency_hz(), 100);
}

#[test]
fn timer_init_programs_divisor_11931() {
    let writes = cpu::timer::init();
    assert_eq!(writes, vec![w(0x43, 0x36), w(0x40, 0x9b), w(0x40, 0x2e)]);
    assert_eq!(0x9b + 0x2e * 256, 1_193_182 / 100);
}

#[test]
fn timer_counts_ticks() {
    let mut t = Timer::new();
    assert_eq!(t.ticks(), 0);
    assert_eq!(t.tick(), 1);
    assert_eq!(t.tick(), 2);
    assert_eq!(t.ticks(), 2);
}

#[test]
fn wait_over_counts_across_wrap() {
    assert!(!wait_over(10, 59, 50));
    assert!(wait_over(10, 60, 50));
    assert!(wait_over(u64::MAX - 9, 40, 50));
    assert!(!wait_over(u64::MAX - 9, 39, 50));
}

#[test]
fn pic_vectors() {
    assert_eq!(PIC1_OFFSET, 32);
    assert_eq!(PIC2_OFFSET, 40);
}

#[test]
fn pic_init_sequence() {
    let wait = w(0x80, 0);
    assert_eq!(
        cpu::pic::init(),
        vec![
            w(0x20, 0x11), wait,
            w(0xa0, 0x11), wait,
            w(0x21, 32), wait,
            w(0xa1, 40), wait,
            w(0x21, 4), wait,
            w(0xa1, 2), wait,
            w(0x21, 1), wait,
            w(0xa1, 1), wait,
            w(0x21, 0xfe),
            w(0xa1, 0xff),
        ]
    );
}

#[test]
fn end_of_interrupt_master_only_below_eight() {
    assert_eq!(end_of_interrupt(0), vec![w(0x20, 0x20)]);
    assert_eq!(end_of_interrupt(7), vec![w(0x20, 0x20)]);
    assert_eq!(end_of_interrupt(8), vec![w(0xa0, 0x20), w(0x20, 0x20)]);
    assert_eq!(end_of_interrupt(15), vec![w(0xa0, 0x20), w(0x20, 0x20)]);
}

#[test]
fn cpu_init_is_pic_then_timer() {
    let mut expected = cpu::pic::init();
    expected.extend(cpu::timer::init());
    assert_eq!(cpu::init(), expected);
    assert_eq!(cpu::init().len(), 21);
}

#[test]
fn task_context_starts_empty() {
    assert_eq!(TaskContext::empty().rsp, 0);
}

#[test]
fn task_stack_frame_below_aligned_top() {
    let s = make_task_stack(0x10_0000, 0xdead_beef);
    assert_eq!(s.rsp, 0x10_0000 + 16384 - 56);
    assert_eq!(s.frame, vec![0, 0, 0, 0, 0, 0, 0xdead_beef]);
    let s = make_task_stack(0x1003, 7);
    assert_eq!(s.rsp, 0x5000 - 56);
    assert_eq!(s.frame[6], 7);
}

#[test]
fn scheduler_idle_before_init() {
    let mut s = Scheduler::new();
    for _ in 0..100 {
        assert_eq!(s.tick(), None);
    }
    assert_eq!(s.current_task(), 0);
}

#[test]
fn scheduler_init_only_once() {
    let mut s = Scheduler::new();
    assert!(s.init());
    assert!(!s.init());
}

#[test]
fn scheduler_switches_every_quantum_round_robin() {
    let mut s = Scheduler::new();
    s.init();
    let mut switches = Vec::new();
    for n in 1..=(5 * QUANTUM_TICKS) {
        if let Some(sw) = s.tick() {
            switches.push((n, sw));
        }
    }
    assert_eq!(
        switches,
        vec![
            (10, TaskSwitch { from: 0, to: 1 }),
            (20, TaskSwitch { from: 1, to: 2 }),
            (30, TaskSwitch { from: 2, to: 1 }),
            (40, TaskSwitch { from: 1, to: 2 }),
            (50, TaskSwitch { from: 2, to: 1 }),
        ]
    );
    assert_eq!(s.current_task(), 1);
}

#[test]
fn timer_handler_ticks_schedules_and_acknowledges() {
    let mut t = Timer::new();
    let mut s = Scheduler::new();
    s.init();
    for n in 1..=10u64 {
        let steps = timer_handler(&mut t, &mut s);
        assert_eq!(t.ticks(), n);
        if n < 10 {
            assert_eq!(steps, vec![TimerStep::Write(w(0x20, 0x20))]);
        } else {
            assert_eq!(
                steps,
                vec![
                    TimerStep::Write(w(0x20, 0x20)),
                    TimerStep::Switch(TaskSwitch { from: 0, to: 1 }),
                ]
            );
        }
    }
}

#[test]
fn timer_handler_before_scheduler_init_only_acknowledges() {
    let mut t = Timer::new();
    let mut s = Scheduler::new();
    for _ in 0..20 {
        assert_eq!(timer_handler(&mut t, &mut s), vec![TimerStep::Write(w(0x20, 0x20))]);
    }
    assert_eq!(t.ticks(), 20);
    assert_eq!(s.current_task(), 0);
}
