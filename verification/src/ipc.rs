use vstd::prelude::*;
use ringbuffer::{AllocRingBuffer, RingBuffer, RingBufferExt, RingBufferRead, RingBufferWrite};
use crate::error::Error;
use crate::text::{ascii_string, all_ascii, ascii_chars, decimal_digits, decimal_string};

verus! {

#[verifier::external_type_specification]
#[verifier::external_body]
#[verifier::reject_recursive_types(T)]
pub struct ExAllocRingBuffer<T>(AllocRingBuffer<T>);

/// A message: who sent it and its bytes.
pub struct Message {
    pub from: u32,
    pub bytes: Vec<u8>,
}

impl Message {
    /// A message from process `from` carrying a copy of `bytes`.
    pub fn new(from: u32, bytes: &[u8]) -> (m: Message)
        ensures
            m.from == from,
            m.bytes@ == bytes@,
    {
        let mut v: Vec<u8> = Vec::new();
        let mut i: usize = 0;
        while i < bytes.len()
            invariant
                i <= bytes@.len(),
                v@ == bytes@.take(i as int),
            decreases bytes@.len() - i,
        {
            v.push(bytes[i]);
            proof {
                assert(v@ =~= bytes@.take(i + 1));
            }
            i = i + 1;
        }
        proof {
            assert(v@ =~= bytes@);
        }
        Message { from, bytes: v }
    }
}

/// The messages a ring buffer holds, oldest first.
pub uninterp spec fn ring_contents(rb: AllocRingBuffer<Message>) -> Seq<Message>;

/// The number of messages a ring buffer was made to hold.
pub uninterp spec fn ring_capacity(rb: AllocRingBuffer<Message>) -> nat;

/// Whether `n` is a power of two.
pub open spec fn is_power_of_two(n: nat) -> bool
    decreases n,
{
    if n == 1 {
        true
    } else if n < 2 || n % 2 != 0 {
        false
    } else {
        is_power_of_two(n / 2)
    }
}

/// `AllocRingBuffer::with_capacity`: an empty buffer that holds `capacity`
/// messages.  It panics unless the capacity is a power of two.
#[verifier::external_body]
fn ring_with_capacity(capacity: usize) -> (rb: AllocRingBuffer<Message>)
    requires
        is_power_of_two(capacity as nat),
    ensures
        ring_contents(rb) == Seq::<Message>::empty(),
        ring_capacity(rb) == capacity,
{
    AllocRingBuffer::with_capacity(capacity)
}

/// `RingBufferWrite::push`: appends `m`; a full buffer first drops its
/// oldest message.
#[verifier::external_body]
fn ring_push(rb: &mut AllocRingBuffer<Message>, m: Message)
    ensures
        ring_capacity(*final(rb)) == ring_capacity(*old(rb)),
        ring_contents(*old(rb)).len() < ring_capacity(*old(rb)) ==> ring_contents(*final(rb))
            == ring_contents(*old(rb)).push(m),
        ring_contents(*old(rb)).len() == ring_capacity(*old(rb)) ==> ring_contents(*final(rb))
            == ring_contents(*old(rb)).drop_first().push(m),
{
    rb.push(m)
}

/// `RingBufferRead::dequeue`: takes the oldest message out, `None` when the
/// buffer is empty.
#[verifier::external_body]
fn ring_dequeue(rb: &mut AllocRingBuffer<Message>) -> (r: Option<Message>)
    ensures
        ring_capacity(*final(rb)) == ring_capacity(*old(rb)),
        ring_contents(*old(rb)).len() == 0 ==> r is None && ring_contents(*final(rb))
            == ring_contents(*old(rb)),
        ring_contents(*old(rb)).len() > 0 ==> r == Some(ring_contents(*old(rb))[0])
            && ring_contents(*final(rb)) == ring_contents(*old(rb)).drop_first(),
{
    rb.dequeue()
}

/// `RingBufferExt::peek`: the oldest message, `None` when the buffer is
/// empty.
#[verifier::external_body]
fn ring_peek(rb: &AllocRingBuffer<Message>) -> (r: Option<&Message>)
    ensures
        ring_contents(*rb).len() == 0 ==> r is None,
        ring_contents(*rb).len() > 0 ==> r == Some(&ring_contents(*rb)[0]),
{
    rb.peek()
}

/// `RingBuffer::len`: the number of messages held.
#[verifier::external_body]
fn ring_len(rb: &AllocRingBuffer<Message>) -> (n: usize)
    ensures
        n == ring_contents(*rb).len(),
{
    rb.len()
}

/// Who a queue is reserved for.
#[derive(Clone, Copy, Debug, PartialEq, Eq, Structural)]
pub enum Endpoint {
    /// A single process.
    Process(u32),
    /// Any other endpoint.
    Other,
}

/// A named queue of messages owned by one process: anyone may send, only the
/// owner receives.  When full, a new message drops the oldest.
pub struct MessageQueue {
    name: String,
    owner: u32,
    endpoint: Endpoint,
    queue: AllocRingBuffer<Message>,
}

/// Whether `after` is the queue `before` once `caller` wrote `bytes` to it:
/// a message from the caller with those bytes comes after the others, the
/// oldest making room for it when the queue was full.
pub open spec fn wrote(before: MessageQueue, after: MessageQueue, caller: u32, bytes: Seq<u8>) -> bool {
    &&& after.capacity() == before.capacity()
    &&& after.spec_owner() == before.spec_owner()
    &&& after.spec_name() == before.spec_name()
    &&& after.spec_endpoint() == before.spec_endpoint()
    &&& after.messages().len() > 0
    &&& after.messages().last().from == caller
    &&& after.messages().last().bytes@ == bytes
    &&& before.messages().len() < before.capacity() ==> after.messages().drop_last()
        == before.messages()
    &&& before.messages().len() == before.capacity() ==> after.messages().drop_last()
        == before.messages().drop_first()
}

/// Whether a read by `caller` from `before` into a buffer holding `buf_before`
/// answered `r` and left the queue `after` and the buffer `buf_after`: only
/// the owner may read, a message must wait and fit in the buffer; then it is
/// taken out and copied to the buffer's front, and the buffer's length is the
/// answer.  A refused read changes nothing.
pub open spec fn read_outcome(
    before: MessageQueue,
    after: MessageQueue,
    caller: u32,
    buf_before: Seq<u8>,
    buf_after: Seq<u8>,
    r: Result<usize, Error>,
) -> bool {
    &&& after.capacity() == before.capacity()
    &&& after.spec_owner() == before.spec_owner()
    &&& if caller != before.spec_owner() {
        r == Err::<usize, Error>(Error::Permissions) && after.messages() == before.messages()
            && buf_after == buf_before
    } else if before.messages().len() == 0 {
        r == Err::<usize, Error>(Error::NoData) && after.messages() == before.messages()
            && buf_after == buf_before
    } else if before.messages()[0].bytes@.len() > buf_before.len() {
        r == Err::<usize, Error>(Error::BufferTooSmall) && after.messages() == before.messages()
            && buf_after == buf_before
    } else {
        let m = before.messages()[0].bytes@;
        &&& r == Ok::<usize, Error>(buf_before.len() as usize)
        &&& after.messages() == before.messages().drop_first()
        &&& buf_after == m + buf_before.skip(m.len() as int)
    }
}

impl MessageQueue {
    pub closed spec fn spec_name(&self) -> Seq<char> {
        self.name@
    }

    pub closed spec fn spec_owner(&self) -> u32 {
        self.owner
    }

    pub closed spec fn spec_endpoint(&self) -> Endpoint {
        self.endpoint
    }

    /// The messages waiting, oldest first.
    pub closed spec fn messages(&self) -> Seq<Message> {
        ring_contents(self.queue)
    }

    /// How many messages the queue holds at most.
    pub closed spec fn capacity(&self) -> nat {
        ring_capacity(self.queue)
    }

    /// The queue never holds more messages than it was made for.
    pub open spec fn wf(&self) -> bool {
        0 < self.capacity() && self.messages().len() <= self.capacity()
    }

    /// An empty queue named `name`, owned by process `owner`, reserved for
    /// `endpoint`, holding at most `capacity` messages, which must be a power
    /// of two.
    pub fn new(name: String, owner: u32, endpoint: Endpoint, capacity: usize) -> (q: MessageQueue)
        requires
            is_power_of_two(capacity as nat),
        ensures
            q.wf(),
            q.spec_name() == name@,
            q.spec_owner() == owner,
            q.spec_endpoint() == endpoint,
            q.messages() == Seq::<Message>::empty(),
            q.capacity() == capacity,
    {
        MessageQueue { name, owner, endpoint, queue: ring_with_capacity(capacity) }
    }

    /// Appends `message`; a full queue drops its oldest message first.
    pub fn send(&mut self, message: Message)
        requires
            old(self).wf(),
        ensures
            final(self).wf(),
            final(self).capacity() == old(self).capacity(),
            final(self).spec_owner() == old(self).spec_owner(),
            final(self).spec_name() == old(self).spec_name(),
            final(self).spec_endpoint() == old(self).spec_endpoint(),
            old(self).messages().len() < old(self).capacity() ==> final(self).messages() == old(
                self,
            ).messages().push(message),
            old(self).messages().len() == old(self).capacity() ==> final(self).messages() == old(
                self,
            ).messages().drop_first().push(message),
    {
        ring_push(&mut self.queue, message);
    }

    /// Takes the oldest message out for `caller`: only the owner may, and
    /// there must be one.
    pub fn receive(&mut self, caller: u32) -> (r: Result<Message, Error>)
        requires
            old(self).wf(),
        ensures
            final(self).wf(),
            final(self).capacity() == old(self).capacity(),
            final(self).spec_owner() == old(self).spec_owner(),
            final(self).spec_name() == old(self).spec_name(),
            final(self).spec_endpoint() == old(self).spec_endpoint(),
            caller != old(self).spec_owner() ==> r == Err::<Message, Error>(Error::Permissions)
                && final(self).messages() == old(self).messages(),
            caller == old(self).spec_owner() && old(self).messages().len() == 0 ==> r == Err::<
                Message,
                Error,
            >(Error::NoData) && final(self).messages() == old(self).messages(),
            caller == old(self).spec_owner() && old(self).messages().len() > 0 ==> r == Ok::<
                Message,
                Error,
            >(old(self).messages()[0]) && final(self).messages() == old(
                self,
            ).messages().drop_first(),
    {
        if caller != self.owner {
            return Err(Error::Permissions);
        }
        match ring_dequeue(&mut self.queue) {
            Some(m) => Ok(m),
            None => Err(Error::NoData),
        }
    }

    /// The length of the oldest message, for `caller`: only the owner may
    /// ask, and there must be one.
    pub fn peek_len(&self, caller: u32) -> (r: Result<usize, Error>)
        ensures
            caller != self.spec_owner() ==> r == Err::<usize, Error>(Error::Permissions),
            caller == self.spec_owner() && self.messages().len() == 0 ==> r == Err::<usize, Error>(
                Error::NoData,
            ),
            caller == self.spec_owner() && self.messages().len() > 0 ==> r == Ok::<usize, Error>(
                self.messages()[0].bytes@.len() as usize,
            ),
    {
        if caller != self.owner {
            return Err(Error::Permissions);
        }
        match ring_peek(&self.queue) {
            Some(m) => Ok(m.bytes.len()),
            None => Err(Error::NoData),
        }
    }

    /// The number of messages waiting.
    pub fn available(&self) -> (n: usize)
        ensures
            n == self.messages().len(),
    {
        ring_len(&self.queue)
    }

    /// Receives the oldest message into the front of `buf` for `caller` and
    /// answers the length of `buf`; the message must fit.
    pub fn read(&mut self, caller: u32, buf: &mut Vec<u8>) -> (r: Result<usize, Error>)
        requires
            old(self).wf(),
        ensures
            final(self).wf(),
            read_outcome(*old(self), *final(self), caller, old(buf)@, final(buf)@, r),
    {
        let pk = match self.peek_len(caller) {
            Ok(n) => n,
            Err(e) => {
                return Err(e);
            },
        };
        if pk > buf.len() {
            return Err(Error::BufferTooSmall);
        }
        let m = match self.receive(caller) {
            Ok(m) => m,
            Err(e) => {
                return Err(e);
            },
        };
        let ghost before = buf@;
        let _n = m.bytes.len();
        let mut i: usize = 0;
        while i < pk
            invariant
                i <= pk,
                pk == m.bytes@.len(),
                pk <= before.len(),
                buf@.len() == before.len(),
                buf@ == m.bytes@.take(i as int) + before.skip(i as int),
            decreases pk - i,
        {
            buf.set(i, m.bytes[i]);
            proof {
                assert(buf@ =~= m.bytes@.take(i + 1) + before.skip(i + 1));
            }
            i = i + 1;
        }
        proof {
            assert(m.bytes@.take(pk as int) =~= m.bytes@);
        }
        Ok(buf.len())
    }

    /// Sends the bytes of `buf` as a message from `caller`; answers their
    /// number.
    pub fn write(&mut self, caller: u32, buf: &[u8]) -> (r: Result<usize, Error>)
        requires
            old(self).wf(),
        ensures
            final(self).wf(),
            r == Ok::<usize, Error>(buf@.len() as usize),
            wrote(*old(self), *final(self), caller, buf@),
    {
        let m = Message::new(caller, buf);
        self.send(m);
        proof {
            if old(self).messages().len() == old(self).capacity() {
                assert(self.messages().drop_last() =~= old(self).messages().drop_first());
            } else {
                assert(self.messages().drop_last() =~= old(self).messages());
            }
        }
        Ok(buf.len())
    }

    /// Whether the queue counts as open for `caller`: it does when it is
    /// reserved for a single process other than the caller.
    pub fn is_open(&self, caller: u32) -> (r: bool)
        ensures
            r == (self.spec_endpoint() matches Endpoint::Process(pid) && pid != caller),
    {
        match self.endpoint {
            Endpoint::Process(pid) => caller != pid,
            Endpoint::Other => false,
        }
    }

    /// Whether `caller` setting the queue's open state to `open` destroys
    /// it: the owner closing it does.
    pub fn set_open_state(&self, caller: u32, open: bool) -> (destroy: bool)
        ensures
            destroy == (caller == self.spec_owner() && !open),
    {
        caller == self.owner && !open
    }

    /// The queue's path: `Processes`, the owner in decimal, `MessageQueues`,
    /// the queue's name.
    pub fn resource_path(&self) -> (path: Vec<String>)
        ensures
            path@.len() == 4,
            path@[0]@ == "Processes"@,
            path@[1]@ == ascii_chars(decimal_digits(self.spec_owner() as nat)),
            path@[2]@ == "MessageQueues"@,
            path@[3]@ == self.spec_name(),
    {
        let mut path: Vec<String> = Vec::new();
        path.push("Processes".to_owned());
        path.push(decimal_string(self.owner));
        path.push("MessageQueues".to_owned());
        path.push(self.name.clone());
        path
    }
}

/// What is written to an empty queue, its owner reads back: a read into a
/// buffer at least as long succeeds, answers the buffer's length, leaves the
/// written bytes at the buffer's front and the queue empty again.
pub proof fn lemma_write_then_read(
    q0: MessageQueue,
    q1: MessageQueue,
    q2: MessageQueue,
    writer: u32,
    bytes: Seq<u8>,
    buf0: Seq<u8>,
    buf1: Seq<u8>,
    r: Result<usize, Error>,
)
    requires
        q0.wf(),
        q0.messages().len() == 0,
        wrote(q0, q1, writer, bytes),
        read_outcome(q1, q2, q1.spec_owner(), buf0, buf1, r),
        bytes.len() <= buf0.len(),
    ensures
        r == Ok::<usize, Error>(buf0.len() as usize),
        buf1.take(bytes.len() as int) == bytes,
        q2.messages().len() == 0,
{
    assert(q1.messages().drop_last().len() == 0);
    assert(q1.messages()[0] == q1.messages().last());
    assert(buf1.take(bytes.len() as int) =~= bytes);
}

} // verus!
