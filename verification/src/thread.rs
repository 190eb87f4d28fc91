//! Threads, their saved CPU state, and the cooperative scheduler.
//!
//! A thread's saved state is byte-for-byte the register frame the trap entry
//! stub pushes, which is what makes saving and restoring a context a plain
//! copy followed by an `iret`.  The scheduler picks a ready thread by
//! reservoir sampling over a linear congruential sequence — deterministic
//! state, so the whole decision is verified.

use vstd::prelude::*;

verus! {

use vstd::wrapping::u64_specs;
use crate::descriptors::{USER_CS, USER_DS};

/// Capacity of the thread table.
pub const MAX_THREADS: usize = 1024;

/// File descriptors per thread.
pub const MAX_FDS: usize = 16;

/// The interrupt-enable bit of EFLAGS.
pub const EFLAGS_IF: u32 = 0x200;

/// Multiplier of the scheduling LCG.
pub const SCHED_LCG_A: u64 = 0xdead_beed;

/// Increment of the scheduling LCG.
pub const SCHED_LCG_C: u64 = 0x1234_5679;

/// A thread's lifecycle state.
#[derive(Clone, Copy, PartialEq, Eq, Structural, Debug)]
pub enum ThreadState {
    Unused,
    Running,
    Ready,
    Blocked,
    Zombie,
}

/// The frame the CPU pushes on a 32-bit trap.
#[derive(Clone, Copy, PartialEq, Eq, Structural, Debug)]
pub struct Frame32 {
    pub eip: u32,
    pub cs: u32,
    pub eflags: u32,
    pub esp: u32,
    pub ss: u32,
}

/// The frame the CPU pushes on a 64-bit trap.
#[derive(Clone, Copy, PartialEq, Eq, Structural, Debug)]
pub struct Frame64 {
    pub rip: u64,
    pub cs: u64,
    pub rflags: u64,
    pub rsp: u64,
    pub ss: u64,
}

/// The register frame the common trap stub builds: segment registers, the
/// general-purpose registers, the vector and error code, then the CPU frame.
#[derive(Clone, Copy, PartialEq, Eq, Structural, Debug)]
pub struct Regs {
    pub gs: u64,
    pub fs: u64,
    pub es: u64,
    pub ds: u64,
    pub r15: u64,
    pub r14: u64,
    pub r13: u64,
    pub r12: u64,
    pub r11: u64,
    pub r10: u64,
    pub r9: u64,
    pub r8: u64,
    pub rdi: u64,
    pub rsi: u64,
    pub rbp: u64,
    pub rsp_dummy: u64,
    pub rbx: u64,
    pub rdx: u64,
    pub rcx: u64,
    pub rax: u64,
    pub int_num: u64,
    pub err_code: u64,
    pub frame: Frame32,
}

/// A thread's saved CPU state: the same layout as [`Regs`], so that saving
/// and restoring are plain copies.
#[derive(Clone, Copy, PartialEq, Eq, Structural, Debug)]
pub struct CpuState {
    pub gs: u64,
    pub fs: u64,
    pub es: u64,
    pub ds: u64,
    pub r15: u64,
    pub r14: u64,
    pub r13: u64,
    pub r12: u64,
    pub r11: u64,
    pub r10: u64,
    pub r9: u64,
    pub r8: u64,
    pub rdi: u64,
    pub rsi: u64,
    pub rbp: u64,
    pub rsp_dummy: u64,
    pub rbx: u64,
    pub rdx: u64,
    pub rcx: u64,
    pub rax: u64,
    pub int_num: u64,
    pub err_code: u64,
    pub frame: Frame32,
}

/// The saved state that corresponds to a register frame.
pub open spec fn cpu_state_of_regs(r: Regs) -> CpuState {
    CpuState {
        gs: r.gs,
        fs: r.fs,
        es: r.es,
        ds: r.ds,
        r15: r.r15,
        r14: r.r14,
        r13: r.r13,
        r12: r.r12,
        r11: r.r11,
        r10: r.r10,
        r9: r.r9,
        r8: r.r8,
        rdi: r.rdi,
        rsi: r.rsi,
        rbp: r.rbp,
        rsp_dummy: r.rsp_dummy,
        rbx: r.rbx,
        rdx: r.rdx,
        rcx: r.rcx,
        rax: r.rax,
        int_num: r.int_num,
        err_code: r.err_code,
        frame: r.frame,
    }
}

/// The register frame that restoring a saved state reproduces.
pub open spec fn regs_of_cpu_state(c: CpuState) -> Regs {
    Regs {
        gs: c.gs,
        fs: c.fs,
        es: c.es,
        ds: c.ds,
        r15: c.r15,
        r14: c.r14,
        r13: c.r13,
        r12: c.r12,
        r11: c.r11,
        r10: c.r10,
        r9: c.r9,
        r8: c.r8,
        rdi: c.rdi,
        rsi: c.rsi,
        rbp: c.rbp,
        rsp_dummy: c.rsp_dummy,
        rbx: c.rbx,
        rdx: c.rdx,
        rcx: c.rcx,
        rax: c.rax,
        int_num: c.int_num,
        err_code: c.err_code,
        frame: c.frame,
    }
}

/// A trap that saves its frame and is at once restored returns to the
/// interrupted instruction with every register equal: saving and then
/// restoring is the identity on register frames.
pub proof fn lemma_save_restore_roundtrip(r: Regs)
    ensures
        regs_of_cpu_state(cpu_state_of_regs(r)) == r,
{
}

impl CpuState {
    /// The all-zero state.
    pub fn empty() -> (r: CpuState)
        ensures
            r == (CpuState {
                gs: 0u64,
                fs: 0u64,
                es: 0u64,
                ds: 0u64,
                r15: 0u64,
                r14: 0u64,
                r13: 0u64,
                r12: 0u64,
                r11: 0u64,
                r10: 0u64,
                r9: 0u64,
                r8: 0u64,
                rdi: 0u64,
                rsi: 0u64,
                rbp: 0u64,
                rsp_dummy: 0u64,
                rbx: 0u64,
                rdx: 0u64,
                rcx: 0u64,
                rax: 0u64,
                int_num: 0u64,
                err_code: 0u64,
                frame: Frame32 { eip: 0u32, cs: 0u32, eflags: 0u32, esp: 0u32, ss: 0u32 },
            }),
    {
        CpuState {
            gs: 0,
            fs: 0,
            es: 0,
            ds: 0,
            r15: 0,
            r14: 0,
            r13: 0,
            r12: 0,
            r11: 0,
            r10: 0,
            r9: 0,
            r8: 0,
            rdi: 0,
            rsi: 0,
            rbp: 0,
            rsp_dummy: 0,
            rbx: 0,
            rdx: 0,
            rcx: 0,
            rax: 0,
            int_num: 0,
            err_code: 0,
            frame: Frame32 { eip: 0, cs: 0, eflags: 0, esp: 0, ss: 0 },
        }
    }

    /// Set up a ring-3 entry: user segments, the entry point, the user stack,
    /// interrupts enabled, every general-purpose register zero.
    pub fn init_user_process(&mut self, entry: u32, stack: u32)
        ensures
            *final(self) == user_entry_state(entry, stack),
    {
        let ds = USER_DS as u64;
        self.gs = ds;
        self.fs = ds;
        self.es = ds;
        self.ds = ds;
        self.r15 = 0;
        self.r14 = 0;
        self.r13 = 0;
        self.r12 = 0;
        self.r11 = 0;
        self.r10 = 0;
        self.r9 = 0;
        self.r8 = 0;
        self.rdi = 0;
        self.rsi = 0;
        self.rbp = 0;
        self.rsp_dummy = 0;
        self.rbx = 0;
        self.rdx = 0;
        self.rcx = 0;
        self.rax = 0;
        self.int_num = 0;
        self.err_code = 0;
        self.frame = Frame32 {
            eip: entry,
            cs: USER_CS as u32,
            eflags: EFLAGS_IF,
            esp: stack,
            ss: USER_DS as u32,
        };
    }
}

impl Regs {
    /// Instruction pointer of the interrupted context.
    pub fn ip(&self) -> (r: u64)
        ensures
            r == self.frame.eip as u64,
    {
        self.frame.eip as u64
    }

    /// Code segment of the interrupted context.
    pub fn code_seg(&self) -> (r: u16)
        ensures
            r == self.frame.cs as u16,
    {
        self.frame.cs as u16
    }

    /// Flags of the interrupted context.
    pub fn flags(&self) -> (r: u64)
        ensures
            r == self.frame.eflags as u64,
    {
        self.frame.eflags as u64
    }

    /// Stack pointer of the interrupted context.
    pub fn sp(&self) -> (r: u64)
        ensures
            r == self.frame.esp as u64,
    {
        self.frame.esp as u64
    }

    /// Stack segment of the interrupted context.
    pub fn stack_seg(&self) -> (r: u16)
        ensures
            r == self.frame.ss as u16,
    {
        self.frame.ss as u16
    }
}

/// One thread control block.
pub struct Thread {
    pub tid: i32,
    pub pid: i32,
    pub priority: i32,
    pub parent_tid: i32,
    pub state: ThreadState,
    pub time: u32,
    /// Physical address of the thread's page directory; zero keeps the
    /// current one.
    pub page_dir: u32,
    pub num_fds: i32,
    pub fds: Vec<i32>,
    pub cpu_state: CpuState,
    pub symbols: Option<crate::symbols::SymbolData>,
}

impl Thread {
    pub open spec fn wf(self) -> bool {
        self.fds@.len() == MAX_FDS
    }

    /// An unused slot.
    pub fn empty() -> (r: Thread)
        ensures
            r.wf(),
            r.tid == 0,
            r.pid == 0,
            r.priority == 0,
            r.parent_tid == -1,
            r.state == ThreadState::Unused,
            r.time == 0,
            r.page_dir == 0,
            r.num_fds == 0,
            forall|i: int| 0 <= i < MAX_FDS ==> r.fds@[i] == -1,
            r.symbols is None,
    {
        let mut fds: Vec<i32> = Vec::new();
        let mut i: usize = 0;
        while i < MAX_FDS
            invariant
                i == fds@.len() <= MAX_FDS,
                forall|j: int| 0 <= j < i ==> fds@[j] == -1,
            decreases MAX_FDS - i,
        {
            fds.push(-1);
            i = i + 1;
        }
        Thread {
            tid: 0,
            pid: 0,
            priority: 0,
            parent_tid: -1,
            state: ThreadState::Unused,
            time: 0,
            page_dir: 0,
            num_fds: 0,
            fds,
            cpu_state: CpuState::empty(),
            symbols: None,
        }
    }
}

/// What one advance of the scheduling LCG produces.
pub open spec fn lcg_next(seed: u64) -> u64 {
    u64_specs::wrapping_add(u64_specs::wrapping_mul(SCHED_LCG_A, seed), SCHED_LCG_C)
}

/// Reservoir sampling over threads `1..n`: each ready thread other than the
/// excluded one has its running count taken; the last one whose count
/// divides the seed is picked.
#[verifier::opaque]
pub open spec fn reservoir_pick(
    threads: Seq<Thread>,
    exclude: int,
    seed: u64,
    n: int,
) -> (int, Option<int>)
    decreases n,
{
    if n <= 1 {
        (0, None)
    } else {
        let (count, pick) = reservoir_pick(threads, exclude, seed, n - 1);
        if n - 1 != exclude && threads[n - 1].state == ThreadState::Ready {
            if seed as int % (count + 1) == 0 {
                (count + 1, Some(n - 1))
            } else {
                (count + 1, pick)
            }
        } else {
            (count, pick)
        }
    }
}

/// A picked slot always lies among the sampled threads, above the idle
/// slot.
pub proof fn lemma_reservoir_pick_range(
    threads: Seq<Thread>,
    exclude: int,
    seed: u64,
    n: int,
)
    ensures
        match reservoir_pick(threads, exclude, seed, n).1 {
            Some(t) => 1 <= t < n,
            None => true,
        },
        reservoir_pick(threads, exclude, seed, n).0 >= 0,
    decreases n,
{
    reveal_with_fuel(reservoir_pick, 2);
    if n > 1 {
        lemma_reservoir_pick_range(threads, exclude, seed, n - 1);
    }
}

/// A picked slot was ready when sampled, and was not the excluded thread.
pub proof fn lemma_reservoir_pick_ready(threads: Seq<Thread>, exclude: int, seed: u64, n: int)
    ensures
        match reservoir_pick(threads, exclude, seed, n).1 {
            Some(t) => threads[t].state == ThreadState::Ready && t != exclude,
            None => true,
        },
    decreases n,
{
    reveal_with_fuel(reservoir_pick, 2);
    if n > 1 {
        lemma_reservoir_pick_ready(threads, exclude, seed, n - 1);
    }
}

/// What the scheduler decides.
#[derive(Clone, Copy, PartialEq, Eq, Structural, Debug)]
pub enum SchedDecision {
    /// Switch to this thread.
    Switch(usize),
    /// Keep running the current context.
    Stay,
}

/// The table's standing shape between traps: the init/idle slot is never
/// unused once threading is up, and any running thread is the current one —
/// so at most one thread runs at a time.
pub open spec fn thread_invariant(t: ThreadTable) -> bool {
    &&& t.threads@.len() == MAX_THREADS
    &&& t.threads@[0].state != ThreadState::Unused
    &&& forall|i: int|
        0 <= i < MAX_THREADS && (#[trigger] t.threads@[i]).state == ThreadState::Running
            ==> t.current == Some(i as usize)
}

/// The thread table, the running thread, and the scheduling seed.
pub struct ThreadTable {
    pub threads: Vec<Thread>,
    pub current: Option<usize>,
    pub seed: u64,
}

impl ThreadTable {
    pub open spec fn wf(self) -> bool {
        self.threads@.len() == MAX_THREADS && (match self.current {
            Some(c) => c < MAX_THREADS,
            None => true,
        }) && forall|i: int| 0 <= i < MAX_THREADS ==> (#[trigger] self.threads@[i]).wf()
    }

    /// Bring up threading: slot 0 is the running init/idle thread on the
    /// boot page directory.
    pub fn init_threading(page_dir: u32) -> (r: ThreadTable)
        ensures
            r.wf(),
            thread_invariant(r),
            r.current == Some(0usize),
            r.threads@[0].state == ThreadState::Running,
            r.threads@[0].tid == 0,
            r.threads@[0].pid == 0,
            r.threads@[0].parent_tid == -1,
            r.threads@[0].page_dir == page_dir,
            forall|i: int|
                1 <= i < MAX_THREADS ==> (#[trigger] r.threads@[i]).state == ThreadState::Unused,
    {
        let mut threads: Vec<Thread> = Vec::new();
        let mut i: usize = 0;
        while i < MAX_THREADS
            invariant
                i == threads@.len() <= MAX_THREADS,
                forall|j: int| 0 <= j < i ==> (#[trigger] threads@[j]).state == ThreadState::Unused,
                forall|j: int| 0 <= j < i ==> (#[trigger] threads@[j]).wf(),
                forall|j: int|
                    0 <= j < i ==> (#[trigger] threads@[j]).tid == 0 && threads@[j].pid == 0
                        && threads@[j].parent_tid == -1,
            decreases MAX_THREADS - i,
        {
            threads.push(Thread::empty());
            i = i + 1;
        }
        let first = &mut threads[0];
        first.state = ThreadState::Running;
        first.page_dir = page_dir;
        ThreadTable { threads, current: Some(0), seed: 0xcafe_babe_dead_beef }
    }

    /// The running thread's slot, if any.
    pub fn current(&self) -> (r: Option<usize>)
        ensures
            r == self.current,
    {
        self.current
    }

    /// A live thread by identifier: `Some` exactly for an in-range slot that
    /// is not unused.
    pub fn get_thread(&self, tid: usize) -> (r: Option<&Thread>)
        requires
            self.wf(),
        ensures
            match r {
                Some(t) => tid < MAX_THREADS && self.threads@[tid as int].state
                    != ThreadState::Unused && *t == self.threads@[tid as int],
                None => tid >= MAX_THREADS || self.threads@[tid as int].state
                    == ThreadState::Unused,
            },
    {
        if tid >= MAX_THREADS {
            return None;
        }
        let t = &self.threads[tid];
        if t.state != ThreadState::Unused {
            Some(t)
        } else {
            None
        }
    }

    /// Claim the lowest unused slot for a new thread: it becomes Ready with
    /// a fresh descriptor table and an empty CPU state, inheriting priority
    /// and parentage, and taking its own slot as process id when it starts a
    /// new process.  Fails exactly when every slot is taken.
    pub fn create_thread(
        &mut self,
        parent: Option<usize>,
        page_dir: u32,
        is_process: bool,
        now: u32,
    ) -> (r: Option<usize>)
        requires
            old(self).wf(),
            match parent {
                Some(p) => p < MAX_THREADS,
                None => true,
            },
        ensures
            final(self).wf(),
            final(self).current == old(self).current,
            final(self).seed == old(self).seed,
            match r {
                Some(i) => {
                    &&& i < MAX_THREADS
                    &&& old(self).threads@[i as int].state == ThreadState::Unused
                    &&& (forall|j: int|
                        0 <= j < i ==> (#[trigger] old(self).threads@[j]).state
                            != ThreadState::Unused)
                    &&& final(self).threads@ == old(self).threads@.update(
                        i as int,
                        final(self).threads@[i as int],
                    )
                    &&& final(self).threads@[i as int].tid == i
                    &&& final(self).threads@[i as int].pid == (if is_process {
                        i as i32
                    } else {
                        match parent {
                            Some(p) => old(self).threads@[p as int].pid,
                            None => 0,
                        }
                    })
                    &&& final(self).threads@[i as int].priority == (match parent {
                        Some(p) => old(self).threads@[p as int].priority,
                        None => 0,
                    })
                    &&& final(self).threads@[i as int].parent_tid == (match parent {
                        Some(p) => old(self).threads@[p as int].tid,
                        None => -1i32,
                    })
                    &&& final(self).threads@[i as int].state == ThreadState::Ready
                    &&& final(self).threads@[i as int].time == now
                    &&& final(self).threads@[i as int].page_dir == page_dir
                    &&& final(self).threads@[i as int].num_fds == 0
                    &&& (forall|j: int|
                        0 <= j < MAX_FDS ==> final(self).threads@[i as int].fds@[j] == -1)
                    &&& final(self).threads@[i as int].cpu_state == cpu_state_of_regs(
                        regs_of_cpu_state(CpuState::empty_spec()),
                    )
                },
                None => {
                    &&& final(self).threads@ == old(self).threads@
                    &&& forall|j: int|
                        0 <= j < MAX_THREADS ==> (#[trigger] old(self).threads@[j]).state
                            != ThreadState::Unused
                },
            },
    {
        let pid_inherit: i32 = match parent {
            Some(p) => self.threads[p].pid,
            None => 0,
        };
        let priority_inherit: i32 = match parent {
            Some(p) => self.threads[p].priority,
            None => 0,
        };
        let parent_tid: i32 = match parent {
            Some(p) => self.threads[p].tid,
            None => -1,
        };
        let mut i: usize = 0;
        while i < MAX_THREADS
            invariant
                self == old(self),
                self.wf(),
                i <= MAX_THREADS,
                pid_inherit == (match parent {
                    Some(p) => old(self).threads@[p as int].pid,
                    None => 0i32,
                }),
                priority_inherit == (match parent {
                    Some(p) => old(self).threads@[p as int].priority,
                    None => 0i32,
                }),
                parent_tid == (match parent {
                    Some(p) => old(self).threads@[p as int].tid,
                    None => -1i32,
                }),
                match parent {
                    Some(p) => p < MAX_THREADS,
                    None => true,
                },
                forall|j: int|
                    0 <= j < i ==> (#[trigger] self.threads@[j]).state != ThreadState::Unused,
            decreases MAX_THREADS - i,
        {
            if self.threads[i].state == ThreadState::Unused {
                let mut fds: Vec<i32> = Vec::new();
                let mut k: usize = 0;
                while k < MAX_FDS
                    invariant
                        k == fds@.len() <= MAX_FDS,
                        forall|j: int| 0 <= j < k ==> fds@[j] == -1,
                    decreases MAX_FDS - k,
                {
                    fds.push(-1);
                    k = k + 1;
                }
                let t = &mut self.threads[i];
                t.tid = i as i32;
                t.pid = if is_process {
                    i as i32
                } else {
                    pid_inherit
                };
                t.priority = priority_inherit;
                t.parent_tid = parent_tid;
                t.state = ThreadState::Ready;
                t.time = now;
                t.page_dir = page_dir;
                t.num_fds = 0;
                t.fds = fds;
                t.cpu_state = CpuState::empty();
                return Some(i);
            }
            i = i + 1;
        }
        None
    }

    /// Write a user-process entry state into a thread.
    pub fn init_process_thread(&mut self, tid: usize, entry: u32, stack: u32)
        requires
            old(self).wf(),
            tid < MAX_THREADS,
        ensures
            final(self).wf(),
            final(self).current == old(self).current,
            final(self).seed == old(self).seed,
            final(self).threads@ == old(self).threads@.update(
                tid as int,
                Thread {
                    cpu_state: user_entry_state(entry, stack),
                    ..old(self).threads@[tid as int]
                },
            ),
    {
        let t = &mut self.threads[tid];
        t.cpu_state.init_user_process(entry, stack);
        proof {
            assert(self.threads@ =~= old(self).threads@.update(
                tid as int,
                Thread {
                    cpu_state: user_entry_state(entry, stack),
                    ..old(self).threads@[tid as int]
                },
            ));
        }
    }

    /// Copy a trapped register frame into a thread's saved state.
    pub fn save_state(&mut self, tid: usize, regs: &Regs)
        requires
            old(self).wf(),
            tid < MAX_THREADS,
        ensures
            final(self).wf(),
            final(self).current == old(self).current,
            final(self).seed == old(self).seed,
            final(self).threads@ == old(self).threads@.update(
                tid as int,
                Thread { cpu_state: cpu_state_of_regs(*regs), ..old(self).threads@[tid as int] },
            ),
    {
        let t = &mut self.threads[tid];
        t.cpu_state = CpuState {
            gs: regs.gs,
            fs: regs.fs,
            es: regs.es,
            ds: regs.ds,
            r15: regs.r15,
            r14: regs.r14,
            r13: regs.r13,
            r12: regs.r12,
            r11: regs.r11,
            r10: regs.r10,
            r9: regs.r9,
            r8: regs.r8,
            rdi: regs.rdi,
            rsi: regs.rsi,
            rbp: regs.rbp,
            rsp_dummy: regs.rsp_dummy,
            rbx: regs.rbx,
            rdx: regs.rdx,
            rcx: regs.rcx,
            rax: regs.rax,
            int_num: regs.int_num,
            err_code: regs.err_code,
            frame: regs.frame,
        };
        proof {
            assert(self.threads@ =~= old(self).threads@.update(
                tid as int,
                Thread { cpu_state: cpu_state_of_regs(*regs), ..old(self).threads@[tid as int] },
            ));
        }
    }

    /// Set the value a thread will see in `eax` when it resumes.
    pub fn set_return(&mut self, tid: usize, ret: i32)
        requires
            old(self).wf(),
            tid < MAX_THREADS,
        ensures
            final(self).wf(),
            final(self).current == old(self).current,
            final(self).seed == old(self).seed,
            final(self).threads@ == old(self).threads@.update(
                tid as int,
                Thread {
                    cpu_state: CpuState {
                        rax: (ret as u32) as u64,
                        ..old(self).threads@[tid as int].cpu_state
                    },
                    ..old(self).threads@[tid as int]
                },
            ),
    {
        let t = &mut self.threads[tid];
        t.cpu_state.rax = (ret as u32) as u64;
        proof {
            assert(self.threads@ =~= old(self).threads@.update(
                tid as int,
                Thread {
                    cpu_state: CpuState {
                        rax: (ret as u32) as u64,
                        ..old(self).threads@[tid as int].cpu_state
                    },
                    ..old(self).threads@[tid as int]
                },
            ));
        }
    }


    /// Set a thread's lifecycle state.
    pub fn set_state(&mut self, tid: usize, state: ThreadState)
        requires
            old(self).wf(),
            tid < MAX_THREADS,
        ensures
            final(self).wf(),
            final(self).current == old(self).current,
            final(self).seed == old(self).seed,
            final(self).threads@ == old(self).threads@.update(
                tid as int,
                Thread { state, ..old(self).threads@[tid as int] },
            ),
    {
        let t = &mut self.threads[tid];
        t.state = state;
        proof {
            assert(self.threads@ =~= old(self).threads@.update(
                tid as int,
                Thread { state, ..old(self).threads@[tid as int] },
            ));
        }
    }

    /// Copy one thread's saved CPU state into another's.
    pub fn copy_cpu_state(&mut self, from: usize, to: usize)
        requires
            old(self).wf(),
            from < MAX_THREADS,
            to < MAX_THREADS,
            from != to,
        ensures
            final(self).wf(),
            final(self).current == old(self).current,
            final(self).seed == old(self).seed,
            final(self).threads@ == old(self).threads@.update(
                to as int,
                Thread {
                    cpu_state: old(self).threads@[from as int].cpu_state,
                    ..old(self).threads@[to as int]
                },
            ),
    {
        let snapshot = self.threads[from].cpu_state;
        let t = &mut self.threads[to];
        t.cpu_state = snapshot;
        proof {
            assert(self.threads@ =~= old(self).threads@.update(
                to as int,
                Thread {
                    cpu_state: old(self).threads@[from as int].cpu_state,
                    ..old(self).threads@[to as int]
                },
            ));
        }
    }

    /// Attach a symbol table to a thread, for user stack traces.
    pub fn set_symbols(&mut self, tid: usize, symbols: Option<crate::symbols::SymbolData>)
        requires
            old(self).wf(),
            tid < MAX_THREADS,
        ensures
            final(self).wf(),
            final(self).current == old(self).current,
            final(self).seed == old(self).seed,
            final(self).threads@ == old(self).threads@.update(
                tid as int,
                Thread { symbols, ..old(self).threads@[tid as int] },
            ),
    {
        let t = &mut self.threads[tid];
        t.symbols = symbols;
        proof {
            assert(self.threads@ =~= old(self).threads@.update(
                tid as int,
                Thread { symbols, ..old(self).threads@[tid as int] },
            ));
        }
    }

    /// Pick the next thread: advance the seed, reservoir-sample the ready
    /// threads above slot 0 excluding `exclude_tid`, and fall back to the
    /// idle thread only when a switch is demanded and we are not already
    /// idle.
    pub fn schedule(&mut self, exclude_tid: i32, must_switch: bool) -> (r: SchedDecision)
        requires
            old(self).wf(),
        ensures
            final(self).wf(),
            final(self).threads@ == old(self).threads@,
            final(self).current == old(self).current,
            final(self).seed == lcg_next(old(self).seed),
            match r {
                SchedDecision::Switch(t) => t < MAX_THREADS,
                SchedDecision::Stay => true,
            },
            ({
                let pick = reservoir_pick(
                    old(self).threads@,
                    exclude_tid as int,
                    lcg_next(old(self).seed),
                    MAX_THREADS as int,
                ).1;
                match pick {
                    Some(t) => r == SchedDecision::Switch(t as usize),
                    None => {
                        if !must_switch || (match old(self).current {
                            Some(c) => old(self).threads@[c as int].tid == 0,
                            None => false,
                        }) {
                            r == SchedDecision::Stay
                        } else {
                            r == SchedDecision::Switch(0usize)
                        }
                    },
                }
            }),
    {
        let new_seed = SCHED_LCG_A.wrapping_mul(self.seed).wrapping_add(SCHED_LCG_C);
        self.seed = new_seed;
        let mut next: Option<usize> = None;
        let mut count: u64 = 0;
        proof {
            reveal_with_fuel(reservoir_pick, 2);
        }
        let mut i: usize = 1;
        while i < MAX_THREADS
            invariant
                self.wf(),
                self.threads@ == old(self).threads@,
                self.current == old(self).current,
                self.seed == new_seed,
                1 <= i <= MAX_THREADS,
                count <= i,
                match next {
                    Some(t) => t < MAX_THREADS,
                    None => true,
                },
                ({
                    let (c, p) = reservoir_pick(
                        old(self).threads@,
                        exclude_tid as int,
                        new_seed,
                        i as int,
                    );
                    &&& c == count
                    &&& (match p {
                        Some(t) => next == Some(t as usize),
                        None => next is None,
                    })
                }),
            decreases MAX_THREADS - i,
        {
            proof {
                reveal_with_fuel(reservoir_pick, 2);
            }
            if i as i32 != exclude_tid && self.threads[i].state == ThreadState::Ready {
                count = count + 1;
                if new_seed % count == 0 {
                    next = Some(i);
                }
            }
            i = i + 1;
        }
        match next {
            Some(t) => SchedDecision::Switch(t),
            None => {
                let idle_already = match self.current {
                    Some(c) => self.threads[c].tid == 0,
                    None => false,
                };
                if !must_switch || idle_already {
                    SchedDecision::Stay
                } else {
                    SchedDecision::Switch(0)
                }
            },
        }
    }

    /// Commit to a thread: it becomes the running thread, and its saved
    /// state — the frame the restore path will `iret` through — comes back
    /// together with the page directory to load.
    pub fn exit_to_thread(&mut self, tid: usize) -> (r: (CpuState, u32))
        requires
            old(self).wf(),
            tid < MAX_THREADS,
        ensures
            final(self).wf(),
            final(self).seed == old(self).seed,
            final(self).current == Some(tid),
            final(self).threads@ == old(self).threads@.update(
                tid as int,
                Thread { state: ThreadState::Running, ..old(self).threads@[tid as int] },
            ),
            r.0 == old(self).threads@[tid as int].cpu_state,
            r.1 == old(self).threads@[tid as int].page_dir,
    {
        let t = &mut self.threads[tid];
        t.state = ThreadState::Running;
        let state = t.cpu_state;
        let page_dir = t.page_dir;
        self.current = Some(tid);
        proof {
            assert(self.threads@ =~= old(self).threads@.update(
                tid as int,
                Thread { state: ThreadState::Running, ..old(self).threads@[tid as int] },
            ));
        }
        (state, page_dir)
    }

    /// Retire the current thread: its slot becomes unused; the caller must
    /// schedule away with a forced switch.
    pub fn exit_thread(&mut self)
        requires
            old(self).wf(),
        ensures
            final(self).wf(),
            final(self).seed == old(self).seed,
            final(self).current == old(self).current,
            match old(self).current {
                Some(c) => final(self).threads@ == old(self).threads@.update(
                    c as int,
                    Thread { state: ThreadState::Unused, ..old(self).threads@[c as int] },
                ),
                None => final(self).threads@ == old(self).threads@,
            },
    {
        match self.current {
            Some(c) => {
                let t = &mut self.threads[c];
                t.state = ThreadState::Unused;
                proof {
                    assert(self.threads@ =~= old(self).threads@.update(
                        c as int,
                        Thread { state: ThreadState::Unused, ..old(self).threads@[c as int] },
                    ));
                }
            },
            None => {},
        }
    }

    /// Deliver a fatal fault to a thread.  A fault in the init process is a
    /// kernel-level failure; the current thread is retired on the spot and
    /// the caller must reschedule; another thread is left as a zombie.
    pub fn signal_thread(&mut self, tid: usize) -> (r: SignalOutcome)
        requires
            old(self).wf(),
            tid < MAX_THREADS,
        ensures
            final(self).wf(),
            final(self).seed == old(self).seed,
            final(self).current == old(self).current,
            ({
                if old(self).threads@[tid as int].pid == 0 {
                    &&& r == SignalOutcome::KernelPanic
                    &&& final(self).threads@ == old(self).threads@
                } else {
                    &&& final(self).threads@ == old(self).threads@.update(
                        tid as int,
                        final(self).threads@[tid as int],
                    )
                    &&& if old(self).current == Some(tid) {
                        &&& r == SignalOutcome::MustReschedule
                        &&& final(self).threads@[tid as int].state == ThreadState::Unused
                    } else {
                        &&& r == SignalOutcome::MarkedZombie
                        &&& final(self).threads@[tid as int].state == ThreadState::Zombie
                    }
                }
            }),
    {
        if self.threads[tid].pid == 0 {
            return SignalOutcome::KernelPanic;
        }
        let is_current = match self.current {
            Some(c) => c == tid,
            None => false,
        };
        let t = &mut self.threads[tid];
        if is_current {
            t.state = ThreadState::Unused;
            SignalOutcome::MustReschedule
        } else {
            t.state = ThreadState::Zombie;
            SignalOutcome::MarkedZombie
        }
    }
}

/// How a fatal fault was handled.
#[derive(Clone, Copy, PartialEq, Eq, Structural, Debug)]
pub enum SignalOutcome {
    /// The fault hit the init process: the kernel gives up.
    KernelPanic,
    /// The current thread died; the caller must switch away.
    MustReschedule,
    /// A non-running thread was marked a zombie.
    MarkedZombie,
}

impl Thread {
    /// The CPU frame in a thread's saved state.
    pub open spec fn frame_of(self) -> Frame32 {
        self.cpu_state.frame
    }
}

/// The saved state a fresh user process starts from: user segments, the
/// entry point and stack, interrupts enabled, every register zero.
pub open spec fn user_entry_state(entry: u32, stack: u32) -> CpuState {
    CpuState {
        gs: USER_DS as u64,
        fs: USER_DS as u64,
        es: USER_DS as u64,
        ds: USER_DS as u64,
        r15: 0u64,
        r14: 0u64,
        r13: 0u64,
        r12: 0u64,
        r11: 0u64,
        r10: 0u64,
        r9: 0u64,
        r8: 0u64,
        rdi: 0u64,
        rsi: 0u64,
        rbp: 0u64,
        rsp_dummy: 0u64,
        rbx: 0u64,
        rdx: 0u64,
        rcx: 0u64,
        rax: 0u64,
        int_num: 0u64,
        err_code: 0u64,
        frame: Frame32 {
            eip: entry,
            cs: USER_CS as u32,
            eflags: EFLAGS_IF,
            esp: stack,
            ss: USER_DS as u32,
        },
    }
}

impl CpuState {
    /// The all-zero state, at the specification level.
    pub open spec fn empty_spec() -> CpuState {
        CpuState {
            gs: 0u64,
            fs: 0u64,
            es: 0u64,
            ds: 0u64,
            r15: 0u64,
            r14: 0u64,
            r13: 0u64,
            r12: 0u64,
            r11: 0u64,
            r10: 0u64,
            r9: 0u64,
            r8: 0u64,
            rdi: 0u64,
            rsi: 0u64,
            rbp: 0u64,
            rsp_dummy: 0u64,
            rbx: 0u64,
            rdx: 0u64,
            rcx: 0u64,
            rax: 0u64,
            int_num: 0u64,
            err_code: 0u64,
            frame: Frame32 { eip: 0u32, cs: 0u32, eflags: 0u32, esp: 0u32, ss: 0u32 },
        }
    }
}

} // verus!
