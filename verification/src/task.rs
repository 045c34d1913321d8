use vstd::prelude::*;
use crate::error::Error;
use crate::exec::{ExecutableInfo, Section, SectionType};

verus! {

/// The interrupt flag of RFLAGS, the only flag a new task starts with.
pub const RFLAGS_INTERRUPT_ENABLE: u64 = 0x200;

/// Where the stack of a new task is mapped.
pub const USER_STACK_VIRT_BASE: u64 = 0x6000_0000;

/// Pages of a new task's stack.
pub const USER_STACK_PAGES: u64 = 8;

/// The segment selectors a task context is built with.
#[derive(Clone, Copy, Debug, PartialEq, Eq, Structural)]
pub struct SegmentSelectors {
    pub user_cs: u64,
    pub user_ss: u64,
    pub kernel_cs: u64,
    pub kernel_ss: u64,
}

/// The registers saved for a task, in the order the interrupt entry pushes
/// them.
#[derive(Clone, Copy, Debug, PartialEq, Eq, Structural)]
pub struct TaskContext {
    pub rbp: u64,
    pub rax: u64,
    pub rbx: u64,
    pub rcx: u64,
    pub rdx: u64,
    pub rsi: u64,
    pub rdi: u64,
    pub r8: u64,
    pub r9: u64,
    pub r10: u64,
    pub r11: u64,
    pub r12: u64,
    pub r13: u64,
    pub r14: u64,
    pub r15: u64,
    pub rip: u64,
    pub cs: u64,
    pub rflags: u64,
    pub rsp: u64,
    pub ss: u64,
}

/// A fresh context: every general register zero, interrupts enabled, and the
/// given instruction pointer, stack pointer and segments.
pub open spec fn fresh_context(rip: u64, rsp: u64, cs: u64, ss: u64) -> TaskContext {
    TaskContext {
        rbp: 0,
        rax: 0,
        rbx: 0,
        rcx: 0,
        rdx: 0,
        rsi: 0,
        rdi: 0,
        r8: 0,
        r9: 0,
        r10: 0,
        r11: 0,
        r12: 0,
        r13: 0,
        r14: 0,
        r15: 0,
        rip,
        cs,
        rflags: 0x200,
        rsp,
        ss,
    }
}

impl TaskContext {
    /// A user-mode context starting at `rip` with stack `rsp`.
    pub fn new(rip: u64, rsp: u64, selectors: SegmentSelectors) -> (c: TaskContext)
        ensures
            c == fresh_context(rip, rsp, selectors.user_cs, selectors.user_ss),
    {
        TaskContext {
            rbp: 0,
            rax: 0,
            rbx: 0,
            rcx: 0,
            rdx: 0,
            rsi: 0,
            rdi: 0,
            r8: 0,
            r9: 0,
            r10: 0,
            r11: 0,
            r12: 0,
            r13: 0,
            r14: 0,
            r15: 0,
            rip,
            cs: selectors.user_cs,
            rflags: RFLAGS_INTERRUPT_ENABLE,
            rsp,
            ss: selectors.user_ss,
        }
    }

    /// A kernel-mode context starting at `rip` with stack `rsp`.
    pub fn knew(rip: u64, rsp: u64, selectors: SegmentSelectors) -> (c: TaskContext)
        ensures
            c == fresh_context(rip, rsp, selectors.kernel_cs, selectors.kernel_ss),
    {
        TaskContext {
            rbp: 0,
            rax: 0,
            rbx: 0,
            rcx: 0,
            rdx: 0,
            rsi: 0,
            rdi: 0,
            r8: 0,
            r9: 0,
            r10: 0,
            r11: 0,
            r12: 0,
            r13: 0,
            r14: 0,
            r15: 0,
            rip,
            cs: selectors.kernel_cs,
            rflags: RFLAGS_INTERRUPT_ENABLE,
            rsp,
            ss: selectors.kernel_ss,
        }
    }
}

/// A schedulable task: its saved context and its page table.
#[derive(Clone, Copy, Debug)]
pub struct Task {
    pub state: TaskContext,
    pub page_table: u64,
    pub zombie: bool,
}

/// One page of a section to load: the page address to map and how many bytes
/// of the file to read into it.
#[derive(Clone, Copy, Debug, PartialEq, Eq, Structural)]
pub struct PageLoad {
    pub virt_address: u64,
    pub bytes_to_read: usize,
}

/// The page loads of a section: the loop index runs over
/// `0..pages` in steps of 0x1000, where `pages` is the section's size in
/// memory rounded up to whole pages; each step maps `virt_address + index` and
/// reads up to a page of what is left of the section's file bytes.
pub open spec fn section_loads(s: Section) -> Seq<PageLoad> {
    let pages = (s.size_in_memory + 0xFFF) / 0x1000;
    let steps = (pages + 0xFFF) / 0x1000;
    Seq::new(
        steps as nat,
        |j: int|
            PageLoad {
                virt_address: (s.virt_address + j * 0x1000) as u64,
                bytes_to_read: if s.size_in_file - j * 0x1000 >= 0x1000 {
                    0x1000
                } else if s.size_in_file - j * 0x1000 > 0 {
                    (s.size_in_file - j * 0x1000) as usize
                } else {
                    0
                },
            },
    )
}

impl Task {
    /// A task starting at `code_addr` with stack `stack_addr` in page table
    /// `page_table`, in user or kernel mode.
    pub fn new(
        code_addr: u64,
        stack_addr: u64,
        page_table: u64,
        user_mode: bool,
        selectors: SegmentSelectors,
    ) -> (t: Task)
        ensures
            t.state == if user_mode {
                fresh_context(code_addr, stack_addr, selectors.user_cs, selectors.user_ss)
            } else {
                fresh_context(code_addr, stack_addr, selectors.kernel_cs, selectors.kernel_ss)
            },
            t.page_table == page_table,
            !t.zombie,
    {
        Task {
            state: match user_mode {
                true => TaskContext::new(code_addr, stack_addr, selectors),
                false => TaskContext::knew(code_addr, stack_addr, selectors),
            },
            page_table,
            zombie: false,
        }
    }

    /// The value loaded into CR3 to switch to the task's page table.
    pub fn cr3_value(&self) -> (v: u64)
        ensures
            v == self.page_table | 0x18,
    {
        self.page_table | 0x18
    }

    /// The page loads of one section of an executable.
    pub fn section_load_plan(section: &Section) -> (plan: Vec<PageLoad>)
        requires
            section.size_in_memory + 0xFFF <= usize::MAX,
            section.virt_address + section.size_in_memory + 0x1000 <= u64::MAX,
        ensures
            plan@ == section_loads(*section),
    {
        let pages = (section.size_in_memory + 0xFFF) / 0x1000;
        let ghost steps = (pages + 0xFFF) / 0x1000;
        let mut plan: Vec<PageLoad> = Vec::new();
        let mut bytes_left = section.size_in_file;
        let mut i: usize = 0;
        while i < pages
            invariant
                pages == (section.size_in_memory + 0xFFF) / 0x1000,
                pages <= usize::MAX / 0x1000 + 1,
                section.virt_address + section.size_in_memory + 0x1000 <= u64::MAX,
                steps == (pages + 0xFFF) / 0x1000,
                i == plan@.len() * 0x1000,
                i < pages + 0x1000,
                plan@.len() <= steps,
                i >= pages ==> plan@.len() == steps,
                bytes_left == if section.size_in_file - plan@.len() * 0x1000 > 0 {
                    section.size_in_file - plan@.len() * 0x1000
                } else {
                    0
                },
                forall|j: int| 0 <= j < plan@.len() ==> plan@[j] == section_loads(*section)[j],
            decreases pages + 0x1000 - i,
        {
            let slice_len = if bytes_left >= 0x1000 {
                0x1000
            } else {
                bytes_left
            };
            plan.push(
                PageLoad { virt_address: section.virt_address as u64 + i as u64, bytes_to_read: slice_len },
            );
            if bytes_left >= 0x1000 {
                bytes_left = bytes_left - 0x1000;
            } else {
                bytes_left = 0;
            }
            i = i + 0x1000;
        }
        assert(plan@ =~= section_loads(*section));
        plan
    }

    /// The page loads of the sections of an executable, in section order, up
    /// to the first section that is not loadable, and whether the executable
    /// can be run: one with a section that is not loadable is refused, after
    /// the sections before it have been loaded.
    pub fn load_plan(application: &ExecutableInfo) -> (r: (Vec<Vec<PageLoad>>, Result<(), Error>))
        requires
            forall|k: int|
                0 <= k < application.sections@.len() ==> #[trigger] application.sections@[k].size_in_memory
                    + 0xFFF <= usize::MAX && application.sections@[k].virt_address
                    + application.sections@[k].size_in_memory + 0x1000 <= u64::MAX,
        ensures
            r.0@.len() <= application.sections@.len(),
            forall|k: int|
                0 <= k < r.0@.len() ==> #[trigger] application.sections@[k].section_type
                    == SectionType::Load && r.0@[k]@ == section_loads(application.sections@[k]),
            r.1 is Ok <==> r.0@.len() == application.sections@.len(),
            r.1 is Err ==> r.1 == Err::<(), Error>(Error::InvalidExecutable)
                && application.sections@[r.0@.len() as int].section_type != SectionType::Load,
    {
        let mut plans: Vec<Vec<PageLoad>> = Vec::new();
        let mut k: usize = 0;
        while k < application.sections.len()
            invariant
                k <= application.sections@.len(),
                forall|m: int|
                    0 <= m < application.sections@.len() ==> #[trigger] application.sections@[m].size_in_memory
                        + 0xFFF <= usize::MAX && application.sections@[m].virt_address
                        + application.sections@[m].size_in_memory + 0x1000 <= u64::MAX,
                plans@.len() == k,
                forall|m: int|
                    0 <= m < k ==> #[trigger] application.sections@[m].section_type == SectionType::Load
                        && plans@[m]@ == section_loads(application.sections@[m]),
            decreases application.sections@.len() - k,
        {
            let section = &application.sections[k];
            if section.section_type != SectionType::Load {
                return (plans, Err(Error::InvalidExecutable));
            }
            plans.push(Task::section_load_plan(section));
            k = k + 1;
        }
        (plans, Ok(()))
    }

    /// The pages of a new task's stack, lowest first.
    pub fn stack_pages() -> (pages: Vec<u64>)
        ensures
            pages@ == Seq::new(USER_STACK_PAGES as nat, |i: int| (USER_STACK_VIRT_BASE + i * 0x1000) as u64),
    {
        let mut pages: Vec<u64> = Vec::new();
        let mut i: u64 = 0;
        while i < USER_STACK_PAGES
            invariant
                i <= USER_STACK_PAGES,
                pages@ == Seq::new(i as nat, |j: int| (USER_STACK_VIRT_BASE + j * 0x1000) as u64),
            decreases USER_STACK_PAGES - i,
        {
            pages.push(USER_STACK_VIRT_BASE + i * 0x1000);
            i = i + 1;
            proof {
                assert(pages@ =~= Seq::new(i as nat, |j: int| (USER_STACK_VIRT_BASE + j * 0x1000) as u64));
            }
        }
        pages
    }

    /// The user-mode task that runs an executable: it starts at the entry
    /// point with the stack pointer at the top of the stack pages.
    pub fn for_executable(application: &ExecutableInfo, page_table: u64, selectors: SegmentSelectors) -> (t: Task)
        ensures
            t.state == fresh_context(
                application.virt_entry_point as u64,
                (USER_STACK_VIRT_BASE + USER_STACK_PAGES * 0x1000) as u64,
                selectors.user_cs,
                selectors.user_ss,
            ),
            t.page_table == page_table,
            !t.zombie,
    {
        Task::new(
            application.virt_entry_point as u64,
            USER_STACK_VIRT_BASE + USER_STACK_PAGES * 0x1000,
            page_table,
            true,
            selectors,
        )
    }
}

} // verus!
