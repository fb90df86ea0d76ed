//! Cooperative multitasking: the poll contract every task obeys, the
//! keyboard-driven event sources, and the executor that drives them.

pub mod keyboard;
pub mod simple_executor;

use crate::task::keyboard::ScancodeQueue;
use crate::vga_buffer::Writer;
use vstd::prelude::*;

verus! {

/// Result of advancing a task once: finished for good, or not ready and
/// waiting for its waking handle to be invoked.
#[derive(Debug, Clone, Copy, PartialEq, Eq, Structural)]
pub enum TaskPoll {
    Finished,
    NotReady,
}

/// A cooperative task: a unit of asynchronous work advanced by repeated
/// polls, which yields control back to the executor instead of blocking.
/// The executor passes the task its own waking handle, which the task may
/// register with an event source before reporting not ready; the event queue
/// and the display driver are the kernel resources a task may touch.
pub trait KernelTask {
    /// Advances the task until it finishes or cannot progress without a wake.
    fn poll(&mut self, queue: &mut ScancodeQueue, writer: &mut Writer, waker_id: usize) -> (r:
        TaskPoll)
        requires
            old(writer).wf(),
        ensures
            final(writer).wf(),
            final(queue).capacity() == old(queue).capacity(),
    ;
}

} // verus!
