use vstd::prelude::*;
use crossbeam_queue::ArrayQueue;

verus! {

#[verifier::external_type_specification]
#[verifier::external_body]
#[verifier::reject_recursive_types(T)]
pub struct ExArrayQueue<T>(ArrayQueue<T>);

/// The bytes a scancode queue holds, the oldest first.
pub uninterp spec fn queue_contents(q: ArrayQueue<u8>) -> Seq<u8>;

/// The number of bytes a scancode queue was made to hold.
pub uninterp spec fn queue_capacity(q: ArrayQueue<u8>) -> nat;

/// `ArrayQueue::new`: an empty queue with room for `cap` bytes.  The crate
/// panics on a capacity of zero, and allocates the slots at once.
#[verifier::external_body]
fn queue_with_capacity(cap: usize) -> (q: ArrayQueue<u8>)
    requires
        0 < cap <= 0x10000,
    ensures
        queue_contents(q) == Seq::<u8>::empty(),
        queue_capacity(q) == cap,
{
    ArrayQueue::new(cap)
}

/// `ArrayQueue::push`: with the queue held alone, the byte is added after
/// the others unless the queue is full, in which case the queue is left as
/// it was and the byte comes back as an error.
#[verifier::external_body]
fn queue_push(q: &mut ArrayQueue<u8>, value: u8) -> (pushed: bool)
    ensures
        queue_capacity(*final(q)) == queue_capacity(*old(q)),
        pushed == (queue_contents(*old(q)).len() < queue_capacity(*old(q))),
        pushed ==> queue_contents(*final(q)) == queue_contents(*old(q)).push(value),
        !pushed ==> queue_contents(*final(q)) == queue_contents(*old(q)),
{
    q.push(value).is_ok()
}

/// `ArrayQueue::pop`: with the queue held alone, the oldest byte is taken
/// out; an empty queue gives an error and stays empty.
#[verifier::external_body]
fn queue_pop(q: &mut ArrayQueue<u8>) -> (r: Option<u8>)
    ensures
        queue_capacity(*final(q)) == queue_capacity(*old(q)),
        queue_contents(*old(q)).len() == 0 ==> r is None && queue_contents(*final(q))
            == queue_contents(*old(q)),
        queue_contents(*old(q)).len() > 0 ==> r == Some(queue_contents(*old(q))[0])
            && queue_contents(*final(q)) == queue_contents(*old(q)).drop_first(),
{
    q.pop().ok()
}

/// The number of scancodes the keyboard holds until they are read.
pub const SCANCODE_QUEUE_SIZE: usize = 100;

/// The scancodes that the keyboard's interrupt has delivered and nobody has
/// read yet, oldest first.
pub struct ScancodeStream {
    queue: ArrayQueue<u8>,
}

impl ScancodeStream {
    /// The scancodes waiting to be read, the oldest first.
    pub closed spec fn pending(&self) -> Seq<u8> {
        queue_contents(self.queue)
    }

    /// How many scancodes can wait at most.
    pub closed spec fn capacity(&self) -> nat {
        queue_capacity(self.queue)
    }

    /// An empty stream with room for `SCANCODE_QUEUE_SIZE` scancodes.
    pub fn new() -> (s: ScancodeStream)
        ensures
            s.pending() == Seq::<u8>::empty(),
            s.capacity() == SCANCODE_QUEUE_SIZE,
    {
        ScancodeStream { queue: queue_with_capacity(SCANCODE_QUEUE_SIZE) }
    }

    /// The oldest waiting scancode, taken out of the stream; `None` when
    /// none is waiting, and the reader has to wait for the next interrupt.
    pub fn poll_next(&mut self) -> (r: Option<u8>)
        ensures
            final(self).capacity() == old(self).capacity(),
            old(self).pending().len() == 0 ==> r is None && final(self).pending() == old(
                self,
            ).pending(),
            old(self).pending().len() > 0 ==> r == Some(old(self).pending()[0])
                && final(self).pending() == old(self).pending().drop_first(),
    {
        queue_pop(&mut self.queue)
    }
}

/// What became of a scancode that the keyboard delivered.
#[derive(Clone, Copy, Debug, PartialEq, Eq, Structural)]
pub enum ScancodeOutcome {
    /// It waits in the stream; the reader is to be woken.
    Queued,
    /// The stream was full and the scancode is dropped.
    QueueFull,
    /// No stream exists yet and the scancode is dropped.
    Uninitialized,
}

/// The PS/2 keyboard behind the 8259 interrupt controller.
pub struct PS2KeyboardPIC8259 {}

impl PS2KeyboardPIC8259 {
    /// The keyboard's name among the devices.
    pub fn device_name() -> (n: &'static str)
        ensures
            n@ == "Input/PS2KeyboardPIC8259"@,
    {
        "Input/PS2KeyboardPIC8259"
    }

    /// Hands a scancode from the keyboard's port to the stream, if one
    /// exists: it is added after the waiting ones unless the stream is full.
    pub fn add_scancode(stream: &mut Option<ScancodeStream>, scancode: u8) -> (r: ScancodeOutcome)
        ensures
            match *old(stream) {
                None => r == ScancodeOutcome::Uninitialized && *final(stream) is None,
                Some(s) => *final(stream) matches Some(f) && f.capacity() == s.capacity() && if s.pending().len()
                    < s.capacity() {
                    r == ScancodeOutcome::Queued && f.pending() == s.pending().push(scancode)
                } else {
                    r == ScancodeOutcome::QueueFull && f.pending() == s.pending()
                },
            },
    {
        match stream {
            None => ScancodeOutcome::Uninitialized,
            Some(s) => {
                if queue_push(&mut s.queue, scancode) {
                    ScancodeOutcome::Queued
                } else {
                    ScancodeOutcome::QueueFull
                }
            },
        }
    }
}

} // verus!
