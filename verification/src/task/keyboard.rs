//! The interrupt-safe scancode queue with its single-slot waker register,
//! the asynchronous scancode stream over it, and the keyboard echo task.

use crate::task::{KernelTask, TaskPoll};
use crate::vga_buffer::{write_string_spec, Writer};
use crossbeam_queue::ArrayQueue;
use pc_keyboard::{layouts, DecodedKey, HandleControl, KeyEvent, Keyboard, ScancodeSet1};
use vstd::prelude::*;
use vstd::string::StringSliceAdditionalSpecFns;

verus! {

#[verifier::external_type_specification]
#[verifier::external_body]
#[verifier::reject_recursive_types(T)]
pub struct ExArrayQueue<T>(ArrayQueue<T>);

/// The bytes a queue currently holds, oldest first.
pub uninterp spec fn queue_contents(q: ArrayQueue<u8>) -> Seq<u8>;

/// The fixed capacity a queue was created with.
pub uninterp spec fn queue_capacity(q: ArrayQueue<u8>) -> nat;

/// Relies on crossbeam_queue::ArrayQueue::new: an empty queue of the given
/// capacity. The crate panics on a zero capacity, so that is ruled out here.
#[verifier::external_body]
fn array_queue_new(capacity: usize) -> (q: ArrayQueue<u8>)
    requires
        capacity >= 1,
    ensures
        queue_contents(q) == Seq::<u8>::empty(),
        queue_capacity(q) == capacity as nat,
{
    ArrayQueue::new(capacity)
}

/// Relies on crossbeam_queue::ArrayQueue::push: appends the value at the tail
/// and succeeds exactly when the queue is not full; a full queue hands the
/// value back and keeps its contents. Lock-free: never blocks, and never
/// allocates after construction.
#[verifier::external_body]
fn array_queue_push(q: &mut ArrayQueue<u8>, byte: u8) -> (ok: bool)
    ensures
        queue_capacity(*final(q)) == queue_capacity(*old(q)),
        ok == (queue_contents(*old(q)).len() < queue_capacity(*old(q))),
        ok ==> queue_contents(*final(q)) == queue_contents(*old(q)).push(byte),
        !ok ==> queue_contents(*final(q)) == queue_contents(*old(q)),
{
    q.push(byte).is_ok()
}

/// Relies on crossbeam_queue::ArrayQueue::pop: removes and returns the oldest
/// value, or reports the queue empty. Lock-free: never blocks.
#[verifier::external_body]
fn array_queue_pop(q: &mut ArrayQueue<u8>) -> (r: Option<u8>)
    ensures
        queue_capacity(*final(q)) == queue_capacity(*old(q)),
        match r {
            Some(byte) => queue_contents(*old(q)).len() > 0 && byte == queue_contents(*old(q))[0]
                && queue_contents(*final(q)) == queue_contents(*old(q)).drop_first(),
            None => queue_contents(*old(q)).len() == 0 && queue_contents(*final(q))
                == queue_contents(*old(q)),
        },
{
    q.pop().ok()
}

/// Capacity of the scancode queue: how many raw bytes may be outstanding
/// between the interrupt handler and the consumer before input is dropped.
pub const SCANCODE_QUEUE_CAPACITY: usize = 100;

/// The interrupt-safe event queue, paired with its single-slot waker
/// register. Interrupt handlers push raw scancodes without blocking or
/// allocating; one cooperative consumer pops them. The waker slot holds at
/// most one task handle: registering a new one replaces the old, waking
/// consumes it.
pub struct ScancodeQueue {
    queue: ArrayQueue<u8>,
    waker: Option<usize>,
}

impl ScancodeQueue {
    /// The queued bytes, oldest first.
    pub closed spec fn contents(self) -> Seq<u8> {
        queue_contents(self.queue)
    }

    /// The fixed capacity of the queue.
    pub closed spec fn capacity(self) -> nat {
        queue_capacity(self.queue)
    }

    /// The waiting consumer's handle, if one is registered.
    pub closed spec fn registered_waker(self) -> Option<usize> {
        self.waker
    }
}

/// Entry point for the keyboard interrupt handler: offers one raw scancode to
/// the queue. On success the byte is appended and the registered waker, if
/// any, is handed back to be invoked, its registration consumed. On a full
/// queue the byte is dropped, nobody is woken, and a best-effort diagnostic
/// goes through the display driver, whose write path never re-enters this
/// queue. Never blocks and never allocates.
pub fn add_scancode(queue: &mut ScancodeQueue, writer: &mut Writer, scancode: u8) -> (woken: Option<
    usize,
>)
    requires
        old(writer).wf(),
    ensures
        final(writer).wf(),
        final(queue).capacity() == old(queue).capacity(),
        old(queue).contents().len() < old(queue).capacity() ==> {
            &&& final(queue).contents() == old(queue).contents().push(scancode)
            &&& woken == old(queue).registered_waker()
            &&& final(queue).registered_waker() is None
            &&& *final(writer) == *old(writer)
        },
        old(queue).contents().len() >= old(queue).capacity() ==> {
            &&& final(queue).contents() == old(queue).contents()
            &&& woken is None
            &&& final(queue).registered_waker() == old(queue).registered_waker()
            &&& final(writer)@ == write_string_spec(
                old(writer)@,
                "WARNING: scancode queue full; dropping keyboard input!\n".spec_bytes(),
            )
        },
{
    if array_queue_push(&mut queue.queue, scancode) {
        queue.waker.take()
    } else {
        writer.write_string("WARNING: scancode queue full; dropping keyboard input!\n");
        None
    }
}

/// Result of polling the scancode stream: the oldest queued byte, or nothing
/// until the registered waker is invoked.
#[derive(Debug, Clone, Copy, PartialEq, Eq, Structural)]
pub enum StreamPoll {
    Ready(u8),
    Pending,
}

/// A lazy, logically infinite sequence of raw scancodes, read from the event
/// queue. The stream itself holds no data; it is created together with the
/// one queue it reads, so a second underlying queue cannot exist for it.
pub struct ScancodeStream {
    _private: (),
}

impl ScancodeStream {
    /// Creates the stream together with its event queue: empty, at the fixed
    /// capacity, with no registered waker.
    pub fn new() -> (r: (ScancodeStream, ScancodeQueue))
        ensures
            r.1.contents() == Seq::<u8>::empty(),
            r.1.capacity() == SCANCODE_QUEUE_CAPACITY as nat,
            r.1.registered_waker() is None,
    {
        let queue = ScancodeQueue {
            queue: array_queue_new(SCANCODE_QUEUE_CAPACITY),
            waker: None,
        };
        (ScancodeStream { _private: () }, queue)
    }

    /// One poll: the fast path pops without registering interest; when the
    /// queue is empty the caller's waking handle is registered and the pop is
    /// retried once, closing the race with a byte that arrives in between, so
    /// a consumer is never left suspended while data is queued with no wake
    /// pending.
    pub fn poll_next(&mut self, queue: &mut ScancodeQueue, waker_id: usize) -> (r: StreamPoll)
        ensures
            final(queue).capacity() == old(queue).capacity(),
            old(queue).contents().len() > 0 ==> {
                &&& r == StreamPoll::Ready(old(queue).contents()[0])
                &&& final(queue).contents() == old(queue).contents().drop_first()
                &&& final(queue).registered_waker() == old(queue).registered_waker()
            },
            old(queue).contents().len() == 0 ==> {
                &&& r == StreamPoll::Pending
                &&& final(queue).contents() == old(queue).contents()
                &&& final(queue).registered_waker() == Some(waker_id)
            },
    {
        if let Some(scancode) = array_queue_pop(&mut queue.queue) {
            return StreamPoll::Ready(scancode);
        }
        queue.waker = Some(waker_id);
        match array_queue_pop(&mut queue.queue) {
            Some(scancode) => {
                queue.waker = None;
                StreamPoll::Ready(scancode)
            },
            None => StreamPoll::Pending,
        }
    }
}

/// The queue contents after offering `bytes` in order to a queue that holds
/// `start`: each byte is appended while there is room and dropped once the
/// queue is full, exactly as `add_scancode` behaves push by push.
pub open spec fn offered(start: Seq<u8>, bytes: Seq<u8>, capacity: nat) -> Seq<u8>
    decreases bytes.len(),
{
    if bytes.len() == 0 {
        start
    } else {
        let next = if start.len() < capacity {
            start.push(bytes[0])
        } else {
            start
        };
        offered(next, bytes.drop_first(), capacity)
    }
}

/// Offering bytes to a queue appends exactly the prefix that fits the
/// remaining room, in order.
proof fn lemma_offered_general(start: Seq<u8>, bytes: Seq<u8>, capacity: nat)
    requires
        start.len() <= capacity,
    ensures
        offered(start, bytes, capacity) =~= start + bytes.take(
            if bytes.len() <= capacity - start.len() {
                bytes.len() as int
            } else {
                capacity - start.len()
            },
        ),
    decreases bytes.len(),
{
    if bytes.len() == 0 {
    } else {
        if start.len() < capacity {
            lemma_offered_general(start.push(bytes[0]), bytes.drop_first(), capacity);
        } else {
            lemma_offered_general(start, bytes.drop_first(), capacity);
        }
    }
}

/// For any run of pushes that fits the capacity, nothing is dropped: the
/// queue then holds exactly the pushed bytes, oldest first, so they pop in
/// the order they were pushed.
pub proof fn lemma_queue_fifo(bytes: Seq<u8>, capacity: nat)
    requires
        bytes.len() <= capacity,
    ensures
        offered(Seq::<u8>::empty(), bytes, capacity) == bytes,
{
    lemma_offered_general(Seq::<u8>::empty(), bytes, capacity);
    assert(Seq::<u8>::empty() + bytes.take(bytes.len() as int) =~= bytes);
}

/// Pushing beyond the capacity drops exactly the excess, newest bytes first:
/// the queue retains the longest prefix that fits, in FIFO order.
pub proof fn lemma_queue_overflow(bytes: Seq<u8>, capacity: nat)
    requires
        bytes.len() > capacity,
    ensures
        offered(Seq::<u8>::empty(), bytes, capacity) == bytes.take(capacity as int),
{
    lemma_offered_general(Seq::<u8>::empty(), bytes, capacity);
    assert(Seq::<u8>::empty() + bytes.take(capacity as int) =~= bytes.take(capacity as int));
}

#[verifier::external_type_specification]
#[verifier::external_body]
pub struct ExKeyEvent(KeyEvent);

/// The opaque keyboard decoder (pc_keyboard's state machine for the US
/// 104-key layout and scancode set 1). Verus refuses the crate's generic
/// bounds on the decoder type itself, so the value is held behind this
/// opaque wrapper and reached only through the trusted calls below.
#[verifier::external_body]
pub struct KeyboardDecoder {
    inner: Keyboard<layouts::Us104Key, ScancodeSet1>,
}

/// Relies on pc_keyboard::Keyboard::new: a fresh decoder for the US 104-key
/// layout and scancode set 1, with control characters left unmapped.
#[verifier::external_body]
fn keyboard_new() -> KeyboardDecoder {
    KeyboardDecoder { inner: Keyboard::new(layouts::Us104Key, ScancodeSet1, HandleControl::Ignore) }
}

/// Relies on pc_keyboard::Keyboard::add_byte: feeds one raw scancode to the
/// opaque decoder. A byte that completes a key event yields it; a
/// mid-sequence byte or a decode error yields nothing. The outcome depends on
/// the decoder's hidden state, so nothing more is promised of it.
#[verifier::external_body]
fn keyboard_add_byte(keyboard: &mut KeyboardDecoder, scancode: u8) -> Option<KeyEvent> {
    match keyboard.inner.add_byte(scancode) {
        Ok(event) => event,
        Err(_) => None,
    }
}

/// Relies on pc_keyboard::Keyboard::process_keyevent: applies the decoder's
/// modifier state to a key event and yields the decoded key as text — a
/// unicode key as the character itself, any other key by its name. A key
/// press that decodes to nothing (a lone modifier, a key release) yields
/// nothing.
#[verifier::external_body]
fn keyboard_process_keyevent(keyboard: &mut KeyboardDecoder, event: KeyEvent) -> Option<String> {
    match keyboard.inner.process_keyevent(event) {
        Some(DecodedKey::Unicode(character)) => Some(format!("{}", character)),
        Some(DecodedKey::RawKey(key)) => Some(format!("{:?}", key)),
        None => None,
    }
}

/// The keyboard echo task: drains the scancode stream, feeds every byte to
/// the opaque decoder, and prints each decoded key through the display
/// driver. It never finishes; when the queue is empty it registers its waking
/// handle and reports not ready.
pub struct KeypressPrinter {
    scancodes: ScancodeStream,
    keyboard: KeyboardDecoder,
}

/// The keyboard echo task, created together with the event queue it reads.
pub fn print_keypresses() -> (r: (KeypressPrinter, ScancodeQueue))
    ensures
        r.1.contents() == Seq::<u8>::empty(),
        r.1.capacity() == SCANCODE_QUEUE_CAPACITY as nat,
        r.1.registered_waker() is None,
{
    let (scancodes, queue) = ScancodeStream::new();
    (KeypressPrinter { scancodes, keyboard: keyboard_new() }, queue)
}

impl KernelTask for KeypressPrinter {
    /// Drains the queue completely, whatever the decoder makes of each byte,
    /// registers the task's waking handle, and suspends. The stream has no
    /// end, so the result is always `NotReady`: the echo task runs forever.
    fn poll(&mut self, queue: &mut ScancodeQueue, writer: &mut Writer, waker_id: usize) -> (r:
        TaskPoll)
        ensures
            r == TaskPoll::NotReady,
            final(queue).contents().len() == 0,
            final(queue).registered_waker() == Some(waker_id),
    {
        loop
            invariant
                writer.wf(),
                queue.capacity() == old(queue).capacity(),
            decreases queue.contents().len(),
        {
            match self.scancodes.poll_next(queue, waker_id) {
                StreamPoll::Ready(scancode) => {
                    if let Some(event) = keyboard_add_byte(&mut self.keyboard, scancode) {
                        if let Some(text) = keyboard_process_keyevent(&mut self.keyboard, event) {
                            writer.write_string(text.as_str());
                        }
                    }
                },
                StreamPoll::Pending => {
                    return TaskPoll::NotReady;
                },
            }
        }
    }
}

} // verus!
