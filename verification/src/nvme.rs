use vstd::prelude::*;

verus! {

/// The admin command opcode of Identify.
pub const OPCODE_IDENTIFY: u8 = 0x06;
/// The size of a submission queue entry in bytes.
pub const SUBMISSION_ENTRY_SIZE: u64 = 64;
/// The size of a completion queue entry in bytes.
pub const COMPLETION_ENTRY_SIZE: u64 = 16;
/// The offset of the first doorbell register from the controller's base.
pub const DOORBELL_BASE: u64 = 0x1000;

/// The fields of a submission queue entry that the kernel sets.
#[derive(Clone, Copy, Debug, PartialEq, Eq, Structural)]
pub struct SubmissionQueueEntry {
    pub opcode: u8,
    pub fused_operation: u8,
    pub prp_sgl: u8,
    pub command_id: u16,
    pub nsid: u32,
    pub data_pointer_0: u64,
    pub command_specific_0: u32,
}

/// A 16-bit value to be written to a doorbell register.
#[derive(Clone, Copy, Debug, PartialEq, Eq, Structural)]
pub struct DoorbellWrite {
    pub address: u64,
    pub value: u16,
}

/// What submitting an entry takes: the entry is written at `slot_address`,
/// then the doorbell is rung.
#[derive(Clone, Copy, Debug, PartialEq, Eq, Structural)]
pub struct Submission {
    pub slot_address: u64,
    pub entry: SubmissionQueueEntry,
    pub doorbell: DoorbellWrite,
}

/// A submission queue and its completion queue, with their controller's
/// doorbells.  Addresses are physical addresses held as integers.
pub struct NVMEQueue {
    mbar: u64,
    doorbell_stride: u64,
    queue_id: u64,
    submission_queue: u64,
    completion_queue: u64,
    submission_queue_size: i64,
    completion_queue_size: i64,
    submission_head: i64,
    submission_tail: i64,
    completion_head: i64,
}

/// The address of the submission doorbell of queue `qid`.
pub open spec fn sq_doorbell(mbar: u64, qid: u64, stride: u64) -> int {
    mbar + DOORBELL_BASE + (2 * qid) * stride
}

/// The address of the completion doorbell of queue `qid`.
pub open spec fn cq_doorbell(mbar: u64, qid: u64, stride: u64) -> int {
    mbar + DOORBELL_BASE + (2 * qid + 1) * stride
}

impl NVMEQueue {
    pub closed spec fn spec_mbar(&self) -> u64 {
        self.mbar
    }

    pub closed spec fn spec_doorbell_stride(&self) -> u64 {
        self.doorbell_stride
    }

    pub closed spec fn spec_queue_id(&self) -> u64 {
        self.queue_id
    }

    pub closed spec fn spec_submission_queue(&self) -> u64 {
        self.submission_queue
    }

    pub closed spec fn spec_completion_queue(&self) -> u64 {
        self.completion_queue
    }

    pub closed spec fn spec_submission_queue_size(&self) -> i64 {
        self.submission_queue_size
    }

    pub closed spec fn spec_completion_queue_size(&self) -> i64 {
        self.completion_queue_size
    }

    pub closed spec fn spec_submission_head(&self) -> i64 {
        self.submission_head
    }

    pub closed spec fn spec_submission_tail(&self) -> i64 {
        self.submission_tail
    }

    pub closed spec fn spec_completion_head(&self) -> i64 {
        self.completion_head
    }

    /// The submission doorbell's address.
    pub open spec fn spec_sq_doorbell(&self) -> int {
        sq_doorbell(self.spec_mbar(), self.spec_queue_id(), self.spec_doorbell_stride())
    }

    /// The completion doorbell's address.
    pub open spec fn spec_cq_doorbell(&self) -> int {
        cq_doorbell(self.spec_mbar(), self.spec_queue_id(), self.spec_doorbell_stride())
    }

    /// Both doorbell addresses fit in 64 bits.
    pub open spec fn doorbells_fit(&self) -> bool {
        self.spec_cq_doorbell() <= u64::MAX && 2 * self.spec_queue_id() + 1 <= u64::MAX
    }

    /// A queue with nothing set up.
    pub fn new_uninit() -> (q: NVMEQueue)
        ensures
            q.spec_mbar() == 0,
            q.spec_doorbell_stride() == 0,
            q.spec_queue_id() == 0,
            q.spec_submission_queue() == 0,
            q.spec_completion_queue() == 0,
            q.spec_submission_queue_size() == 0,
            q.spec_completion_queue_size() == 0,
            q.spec_submission_head() == 0,
            q.spec_submission_tail() == 0,
            q.spec_completion_head() == 0,
    {
        NVMEQueue {
            mbar: 0,
            doorbell_stride: 0,
            queue_id: 0,
            submission_queue: 0,
            completion_queue: 0,
            submission_queue_size: 0,
            completion_queue_size: 0,
            submission_head: 0,
            submission_tail: 0,
            completion_head: 0,
        }
    }

    /// Queue `queue_id` of the controller whose registers are at `mbar`, with
    /// its entries at `submission_queue` and `completion_queue`; the
    /// submission tail starts at the last slot.
    pub fn new(
        mbar: u64,
        doorbell_stride: u64,
        queue_id: u64,
        submission_queue: u64,
        completion_queue: u64,
        submission_queue_size: i64,
        completion_queue_size: i64,
    ) -> (q: NVMEQueue)
        requires
            submission_queue_size > i64::MIN,
        ensures
            q.spec_mbar() == mbar,
            q.spec_doorbell_stride() == doorbell_stride,
            q.spec_queue_id() == queue_id,
            q.spec_submission_queue() == submission_queue,
            q.spec_completion_queue() == completion_queue,
            q.spec_submission_queue_size() == submission_queue_size,
            q.spec_completion_queue_size() == completion_queue_size,
            q.spec_submission_head() == 0,
            q.spec_submission_tail() == submission_queue_size - 1,
            q.spec_completion_head() == 0,
    {
        NVMEQueue {
            mbar,
            doorbell_stride,
            queue_id,
            submission_queue,
            completion_queue,
            submission_queue_size,
            completion_queue_size,
            submission_head: 0,
            submission_tail: submission_queue_size - 1,
            completion_head: 0,
        }
    }

    /// The address of the submission doorbell.
    pub fn submission_doorbell_address(&self) -> (a: u64)
        requires
            self.doorbells_fit(),
        ensures
            a == self.spec_sq_doorbell(),
    {
        proof {
            crate::bytes::lemma_mul_le(
                2 * self.queue_id as int,
                self.doorbell_stride as int,
                2 * self.queue_id + 1,
                self.doorbell_stride as int,
            );
            assert((2 * self.queue_id + 1) * self.doorbell_stride == (2 * self.queue_id)
                * self.doorbell_stride + self.doorbell_stride) by (nonlinear_arith);
        }
        self.mbar + 0x1000 + (2 * self.queue_id) * self.doorbell_stride
    }

    /// The address of the completion doorbell.
    pub fn completion_doorbell_address(&self) -> (a: u64)
        requires
            self.doorbells_fit(),
        ensures
            a == self.spec_cq_doorbell(),
    {
        proof {
            assert(0 <= (2 * self.queue_id + 1) * self.doorbell_stride) by (nonlinear_arith);
        }
        self.mbar + 0x1000 + (2 * self.queue_id + 1) * self.doorbell_stride
    }

    /// The write that sets the submission doorbell to `slot`.
    pub fn submission_doorbell(&self, slot: u16) -> (w: DoorbellWrite)
        requires
            self.doorbells_fit(),
        ensures
            w == (DoorbellWrite { address: self.spec_sq_doorbell() as u64, value: slot }),
    {
        DoorbellWrite { address: self.submission_doorbell_address(), value: slot }
    }

    /// The write that sets the completion doorbell after `slot`.
    pub fn completion_doorbell(&self, slot: u16) -> (w: DoorbellWrite)
        requires
            self.doorbells_fit(),
            slot < u16::MAX,
        ensures
            w == (DoorbellWrite { address: self.spec_cq_doorbell() as u64, value: (slot + 1) as u16 }),
    {
        DoorbellWrite { address: self.completion_doorbell_address(), value: slot + 1 }
    }

    /// The writes that reset both doorbells.
    pub fn setup(&self) -> (writes: Vec<DoorbellWrite>)
        requires
            self.doorbells_fit(),
        ensures
            writes@ == seq![
                DoorbellWrite { address: self.spec_sq_doorbell() as u64, value: 0 },
                DoorbellWrite { address: self.spec_cq_doorbell() as u64, value: 1 },
            ],
    {
        let mut writes: Vec<DoorbellWrite> = Vec::new();
        writes.push(self.submission_doorbell(0));
        writes.push(self.completion_doorbell(0));
        proof {
            assert(writes@ =~= seq![
                DoorbellWrite { address: self.spec_sq_doorbell() as u64, value: 0 },
                DoorbellWrite { address: self.spec_cq_doorbell() as u64, value: 1 },
            ]);
        }
        writes
    }

    /// Nothing to wait for: completions are not polled.
    pub fn wait_until_completion(&mut self)
        ensures
            *final(self) == *old(self),
    {
    }

    /// Submits `entry` at the tail: it goes to the tail's slot, the
    /// submission doorbell is set to the tail, and the tail moves on, back to
    /// the first slot after the last.
    pub fn enqueue(&mut self, entry: SubmissionQueueEntry) -> (s: Submission)
        requires
            old(self).doorbells_fit(),
            0 <= old(self).spec_submission_tail() < old(self).spec_submission_queue_size(),
            old(self).spec_submission_queue() + old(self).spec_submission_tail()
                * SUBMISSION_ENTRY_SIZE <= u64::MAX,
        ensures
            s.slot_address == old(self).spec_submission_queue() + old(self).spec_submission_tail()
                * SUBMISSION_ENTRY_SIZE,
            s.entry == entry,
            s.doorbell == (DoorbellWrite {
                address: old(self).spec_sq_doorbell() as u64,
                value: old(self).spec_submission_tail() as u16,
            }),
            final(self).spec_submission_tail() == if old(self).spec_submission_tail() + 1 >= old(
                self,
            ).spec_submission_queue_size() {
                0
            } else {
                old(self).spec_submission_tail() + 1
            },
            final(self).same_except_tail(*old(self)),
            0 <= final(self).spec_submission_tail() < final(self).spec_submission_queue_size(),
    {
        let tail = self.submission_tail as u64;
        let slot_address = self.submission_queue + tail * 64;
        let doorbell = self.submission_doorbell(self.submission_tail as u16);
        self.submission_tail = self.submission_tail + 1;
        if self.submission_tail >= self.submission_queue_size {
            self.submission_tail = 0;
        }
        Submission { slot_address, entry, doorbell }
    }

    /// Whether `self` and `other` differ at most in their submission tail.
    pub open spec fn same_except_tail(&self, other: NVMEQueue) -> bool {
        &&& self.spec_mbar() == other.spec_mbar()
        &&& self.spec_doorbell_stride() == other.spec_doorbell_stride()
        &&& self.spec_queue_id() == other.spec_queue_id()
        &&& self.spec_submission_queue() == other.spec_submission_queue()
        &&& self.spec_completion_queue() == other.spec_completion_queue()
        &&& self.spec_submission_queue_size() == other.spec_submission_queue_size()
        &&& self.spec_completion_queue_size() == other.spec_completion_queue_size()
        &&& self.spec_submission_head() == other.spec_submission_head()
        &&& self.spec_completion_head() == other.spec_completion_head()
    }

    /// The address of the completion entry at the head, which `dequeue`
    /// consumes.
    pub fn completion_slot_address(&self) -> (a: u64)
        requires
            0 <= self.spec_completion_head(),
            self.spec_completion_queue() + self.spec_completion_head() * COMPLETION_ENTRY_SIZE
                <= u64::MAX,
        ensures
            a == self.spec_completion_queue() + self.spec_completion_head()
                * COMPLETION_ENTRY_SIZE,
    {
        self.completion_queue + (self.completion_head as u64) * 16
    }

    /// The head after one completion is consumed: one slot back, the last
    /// slot after the first.
    pub open spec fn next_completion_head(&self) -> int {
        if self.spec_completion_head() - 1 < 0 {
            self.spec_completion_queue_size() - 1
        } else {
            self.spec_completion_head() - 1
        }
    }

    /// Consumes the completion entry at the head, whose submission queue head
    /// pointer is `sq_head_pointer`: the head moves back, the completion
    /// doorbell is set after it, and the submission head becomes the pointer.
    pub fn dequeue(&mut self, sq_head_pointer: u16) -> (w: DoorbellWrite)
        requires
            old(self).doorbells_fit(),
            old(self).spec_completion_head() > i64::MIN,
            old(self).spec_completion_head() - 1 < 0 ==> old(self).spec_completion_queue_size()
                > i64::MIN,
            (old(self).next_completion_head() as u16) < u16::MAX,
        ensures
            final(self).spec_completion_head() == old(self).next_completion_head(),
            final(self).spec_submission_head() == sq_head_pointer,
            w == (DoorbellWrite {
                address: old(self).spec_cq_doorbell() as u64,
                value: ((old(self).next_completion_head() as u16) + 1) as u16,
            }),
            final(self).spec_mbar() == old(self).spec_mbar(),
            final(self).spec_doorbell_stride() == old(self).spec_doorbell_stride(),
            final(self).spec_queue_id() == old(self).spec_queue_id(),
            final(self).spec_submission_queue() == old(self).spec_submission_queue(),
            final(self).spec_completion_queue() == old(self).spec_completion_queue(),
            final(self).spec_submission_queue_size() == old(self).spec_submission_queue_size(),
            final(self).spec_completion_queue_size() == old(self).spec_completion_queue_size(),
            final(self).spec_submission_tail() == old(self).spec_submission_tail(),
    {
        self.completion_head = self.completion_head - 1;
        if self.completion_head < 0 {
            self.completion_head = self.completion_queue_size - 1;
        }
        let w = self.completion_doorbell(self.completion_head as u16);
        self.submission_head = sq_head_pointer as i64;
        w
    }

    /// Submits an Identify command for namespace `namespace_id` of
    /// controller `controller_id`, returning its data to `prp`; `cns` says
    /// which structure.  The command id is the slot's index: `command_id` is
    /// not used.
    pub fn admin_identify(
        &mut self,
        prp: u64,
        namespace_id: u32,
        controller_id: u16,
        cns: u8,
        command_id: u16,
    ) -> (s: Submission)
        requires
            old(self).doorbells_fit(),
            0 <= old(self).spec_submission_tail() < old(self).spec_submission_queue_size(),
            old(self).spec_submission_queue() + old(self).spec_submission_tail()
                * SUBMISSION_ENTRY_SIZE <= u64::MAX,
        ensures
            s.entry == (SubmissionQueueEntry {
                opcode: OPCODE_IDENTIFY,
                fused_operation: 0,
                prp_sgl: 0,
                command_id: old(self).spec_submission_tail() as u16,
                nsid: namespace_id,
                data_pointer_0: prp,
                command_specific_0: ((controller_id as u32) << 16u32) | (cns as u32),
            }),
            s.slot_address == old(self).spec_submission_queue() + old(self).spec_submission_tail()
                * SUBMISSION_ENTRY_SIZE,
            s.doorbell == (DoorbellWrite {
                address: old(self).spec_sq_doorbell() as u64,
                value: old(self).spec_submission_tail() as u16,
            }),
            final(self).spec_submission_tail() == if old(self).spec_submission_tail() + 1 >= old(
                self,
            ).spec_submission_queue_size() {
                0
            } else {
                old(self).spec_submission_tail() + 1
            },
            final(self).same_except_tail(*old(self)),
    {
        let command = SubmissionQueueEntry {
            opcode: OPCODE_IDENTIFY,
            fused_operation: 0,
            prp_sgl: 0,
            command_id: self.submission_tail as u16,
            nsid: namespace_id,
            data_pointer_0: prp,
            command_specific_0: ((controller_id as u32) << 16u32) | (cns as u32),
        };
        self.enqueue(command)
    }
}

} // verus!
