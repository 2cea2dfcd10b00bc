//! CPU-side programming: the interrupt controllers, the interval timer and the
//! task scheduler.

pub mod interrupts;
pub mod pic;
pub mod scheduler;
pub mod timer;

use vstd::prelude::*;
use crate::port::PortWrite;

verus! {

/// The port writes that bring up the interrupt controllers and then the timer,
/// in that order. (The descriptor tables are loaded before these writes are made.)
pub fn init() -> (writes: Vec<PortWrite>)
    ensures
        writes@ == pic::init_program() + timer::init_program(),
{
    let mut writes = pic::init();
    let mut timer_writes = timer::init();
    writes.append(&mut timer_writes);
    writes
}

} // verus!
