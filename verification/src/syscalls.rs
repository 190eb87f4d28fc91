//! System calls: the decisions taken on `int 0x80`.
//!
//! The trap path hands over the register frame, any bytes it read from user
//! memory for the call (a path, a write buffer), and the tick count; the
//! dispatcher routes by the number in `eax` and either returns to the caller
//! with the result in `eax` or hands back the saved state of the thread to
//! resume.  The actual `iret` and CR3 load are the hardware's step.  Each
//! call's whole effect on the kernel state is a spec predicate of its own,
//! so the dispatcher's contract can restate it per number.

use vstd::prelude::*;

verus! {

use crate::thread::{ThreadTable, Thread, Regs, CpuState, SchedDecision, SignalOutcome,
    ThreadState, cpu_state_of_regs, lcg_next, lemma_reservoir_pick_range,
    lemma_reservoir_pick_ready, reservoir_pick, thread_invariant, user_entry_state, MAX_THREADS};
use crate::space::{AddressSpace, cow_inc_refs, free_dec_refs, fork_parent_entry,
    fork_child_entry_at};
use crate::phys::{PhysMemory, MAX_PAGES, FIRST_ALLOC_PAGE};
use crate::vga::{Vga, vga_write_spec};
use crate::tar::{TarReader, find_in_tar};
use crate::elf::{Elf, elf_parse_ok, segments_spec, apply_segments, header_spec, u32_at,
    USER_STACK_TOP};
use crate::{PAGE_SIZE, PAGE_TABLE_BASE_IDX};

/// Function not implemented.
pub const ENOSYS: i32 = -38;

/// Out of memory.
pub const ENOMEM: i32 = -12;

/// No such file.
pub const ENOENT: i32 = -2;

/// Exec format error.
pub const ENOEXEC: i32 = -8;

/// Everything a syscall may touch: the thread table, the current address
/// space, physical memory, the console, the filesystem, and the address
/// spaces of forked children that have not yet been switched to.
pub struct Kernel {
    pub threads: ThreadTable,
    pub space: AddressSpace,
    pub phys: PhysMemory,
    pub vga: Vga,
    pub fs: TarReader,
    pub child_spaces: Vec<AddressSpace>,
}

impl Kernel {
    pub open spec fn wf(self) -> bool {
        self.threads.wf() && self.space.wf() && self.phys.wf() && self.vga.wf()
    }
}

/// How a syscall leaves the machine.
#[derive(Clone, Copy, PartialEq, Eq, Structural, Debug)]
pub enum SyscallOutcome {
    /// Return to the interrupted context with the result in `eax`.
    ReturnToCaller,
    /// Pop this saved state — after loading the page directory when it is
    /// nonzero — and `iret` into it.
    Resume(CpuState, u32),
    /// Nothing to run: halt.
    Halt,
}

/// What exit does: the current slot is retired, the scheduling seed
/// advances, and the outcome follows the scheduler's pick over the table
/// after the retirement — the picked thread's saved state and page directory
/// when one is ready, the idle thread when a switch is forced from a
/// non-idle caller, and a halt only when the idle thread itself exits.
/// Nothing else in the kernel changes.
#[verifier::opaque]
pub open spec fn exit_effect(pre: Kernel, post: Kernel, r: SyscallOutcome) -> bool {
    let t1 = match pre.threads.current {
        Some(c) => pre.threads.threads@.update(
            c as int,
            Thread { state: ThreadState::Unused, ..pre.threads.threads@[c as int] },
        ),
        None => pre.threads.threads@,
    };
    let seed1 = lcg_next(pre.threads.seed);
    let pick = reservoir_pick(t1, -1, seed1, MAX_THREADS as int).1;
    let idle_already = match pre.threads.current {
        Some(c) => t1[c as int].tid == 0,
        None => false,
    };
    &&& post.threads.seed == seed1
    &&& post.space == pre.space
    &&& post.phys == pre.phys
    &&& post.vga == pre.vga
    &&& post.fs == pre.fs
    &&& post.child_spaces == pre.child_spaces
    &&& match pick {
        Some(t) => {
            &&& r == SyscallOutcome::Resume(t1[t].cpu_state, t1[t].page_dir)
            &&& post.threads.threads@ == t1.update(
                t,
                Thread { state: ThreadState::Running, ..t1[t] },
            )
            &&& post.threads.current == Some(t as usize)
        },
        None => {
            if idle_already {
                &&& r == SyscallOutcome::Halt
                &&& post.threads.threads@ == t1
                &&& post.threads.current == pre.threads.current
            } else {
                &&& r == SyscallOutcome::Resume(t1[0].cpu_state, t1[0].page_dir)
                &&& post.threads.threads@ == t1.update(
                    0,
                    Thread { state: ThreadState::Running, ..t1[0] },
                )
                &&& post.threads.current == Some(0usize)
            }
        },
    }
}

/// Exit: retire the current thread and switch away for good.
#[verifier::rlimit(100)]
pub fn sys_exit(k: &mut Kernel) -> (r: SyscallOutcome)
    requires
        old(k).wf(),
    ensures
        final(k).wf(),
        exit_effect(*old(k), *final(k), r),
        r != SyscallOutcome::ReturnToCaller,
        thread_invariant(old(k).threads) && old(k).threads.current != Some(0usize)
            ==> thread_invariant(final(k).threads),
{
    proof {
        reveal(exit_effect);
    }
    k.threads.exit_thread();
    proof {
        lemma_reservoir_pick_range(
            k.threads.threads@,
            -1,
            lcg_next(old(k).threads.seed),
            MAX_THREADS as int,
        );
    }
    let decision = k.threads.schedule(-1, true);
    match decision {
        SchedDecision::Switch(t) => {
            let (state, page_dir) = k.threads.exit_to_thread(t);
            SyscallOutcome::Resume(state, page_dir)
        },
        SchedDecision::Stay => SyscallOutcome::Halt,
    }
}

/// What yield does: the caller's frame is saved, its slot goes ready, the
/// seed advances, and the pick over the saved table decides — resume the
/// picked thread, or return to the caller when nothing else is ready.  A
/// yield never halts and nothing else in the kernel changes.
#[verifier::opaque]
pub open spec fn yield_effect(pre: Kernel, post: Kernel, regs: Regs, r: SyscallOutcome) -> bool {
    &&& post.space == pre.space
    &&& post.phys == pre.phys
    &&& post.vga == pre.vga
    &&& post.fs == pre.fs
    &&& post.child_spaces == pre.child_spaces
    &&& r != SyscallOutcome::Halt
    &&& match pre.threads.current {
        None => r == SyscallOutcome::ReturnToCaller && post.threads == pre.threads,
        Some(c) => {
            let saved = Thread {
                cpu_state: cpu_state_of_regs(regs),
                ..pre.threads.threads@[c as int]
            };
            let t2 = pre.threads.threads@.update(
                c as int,
                Thread { state: ThreadState::Ready, ..saved },
            );
            let seed1 = lcg_next(pre.threads.seed);
            let pick = reservoir_pick(t2, saved.tid as int, seed1, MAX_THREADS as int).1;
            &&& post.threads.seed == seed1
            &&& match pick {
                Some(t) => {
                    &&& r == SyscallOutcome::Resume(t2[t].cpu_state, t2[t].page_dir)
                    &&& post.threads.threads@ == t2.update(
                        t,
                        Thread { state: ThreadState::Running, ..t2[t] },
                    )
                    &&& post.threads.current == Some(t as usize)
                },
                None => {
                    &&& r == SyscallOutcome::ReturnToCaller
                    &&& post.threads.threads@ == t2
                    &&& post.threads.current == Some(c)
                },
            }
        },
    }
}

/// Yield: save the caller, mark it ready, and let the scheduler pick; with
/// nothing else to run the caller simply continues with result zero.
#[verifier::rlimit(100)]
pub fn sys_yield(k: &mut Kernel, regs: &Regs) -> (r: SyscallOutcome)
    requires
        old(k).wf(),
    ensures
        final(k).wf(),
        yield_effect(*old(k), *final(k), *regs, r),
        thread_invariant(old(k).threads) ==> thread_invariant(final(k).threads),
{
    proof {
        reveal(yield_effect);
    }
    let current = match k.threads.current() {
        Some(c) => c,
        None => {
            return SyscallOutcome::ReturnToCaller;
        },
    };
    k.threads.save_state(current, regs);
    proof {
        let saved_probe = Thread {
            cpu_state: cpu_state_of_regs(*regs),
            ..old(k).threads.threads@[current as int]
        };
        assert(k.threads.threads@ == old(k).threads.threads@.update(
            current as int,
            saved_probe,
        ));
    }
    k.threads.set_state(current, ThreadState::Ready);
    proof {
        assert(k.threads.threads@[current as int].state == ThreadState::Ready);
        let saved_t = Thread {
            cpu_state: cpu_state_of_regs(*regs),
            ..old(k).threads.threads@[current as int]
        };
        let mid = old(k).threads.threads@.update(current as int, saved_t);
        assert(mid[current as int] == saved_t);
        assert(k.threads.threads@ == mid.update(
            current as int,
            Thread { state: ThreadState::Ready, ..mid[current as int] },
        ));
        assert(Thread { state: ThreadState::Ready, ..mid[current as int] } == Thread {
            state: ThreadState::Ready,
            ..saved_t
        });
        assert(k.threads.threads@ =~= old(k).threads.threads@.update(
            current as int,
            Thread { state: ThreadState::Ready, ..saved_t },
        ));
    }
    let exclude = k.threads.threads[current].tid;
    proof {
        lemma_reservoir_pick_range(
            k.threads.threads@,
            exclude as int,
            lcg_next(old(k).threads.seed),
            MAX_THREADS as int,
        );
    }
    let decision = k.threads.schedule(exclude, false);
    match decision {
        SchedDecision::Switch(t) => {
            let (state, page_dir) = k.threads.exit_to_thread(t);
            SyscallOutcome::Resume(state, page_dir)
        },
        SchedDecision::Stay => SyscallOutcome::ReturnToCaller,
    }
}

/// No tracked physical page is free.
pub open spec fn pages_exhausted(phys: Seq<u8>) -> bool {
    forall|q: int| FIRST_ALLOC_PAGE <= q < MAX_PAGES ==> phys[q] != 0u8
}

/// No slot in the thread table is unused.
pub open spec fn slots_exhausted(threads: Seq<Thread>) -> bool {
    forall|j: int| 0 <= j < MAX_THREADS ==> (#[trigger] threads[j]).state != ThreadState::Unused
}

/// `i` is the slot `create_thread` takes: the lowest unused one.
pub open spec fn lowest_unused(threads: Seq<Thread>, i: int) -> bool {
    &&& 0 <= i < MAX_THREADS
    &&& threads[i].state == ThreadState::Unused
    &&& forall|j: int| 0 <= j < i ==> (#[trigger] threads[j]).state != ThreadState::Unused
}

/// The reference counts after fork has claimed `root` and shared the user
/// leaves.
pub open spec fn post_fork_phys(pre: Kernel, root: int, phys: Seq<u8>) -> bool {
    phys == cow_inc_refs(
        pre.phys@.update(root, 1u8),
        pre.space@,
        pre.space.mode,
        PAGE_TABLE_BASE_IDX as int,
    )
}

/// What fork does.  `ENOMEM` comes exactly when no physical page is free for
/// the child's root, when every thread slot is taken, or in the degenerate
/// corner where the lowest unused slot is the caller's own; `ENOSYS` when
/// the address space was forked but no thread is current.  On success the
/// result is the child's slot: a ready process whose id is its slot, whose
/// parent is the caller, whose page directory is the child root's CR3 value,
/// and whose saved state is the caller's frame with a zero return; the
/// parent's user leaves have lost their writable bit, the shared pages'
/// counts have grown, and the child's address space joins the pending list.
#[verifier::opaque]
pub open spec fn fork_effect(pre: Kernel, post: Kernel, regs: Regs, now: u32, ret: i32) -> bool {
    &&& post.vga == pre.vga
    &&& post.fs == pre.fs
    &&& if pages_exhausted(pre.phys@) {
        &&& ret == ENOMEM
        &&& post.threads == pre.threads
        &&& post.space@ == pre.space@
        &&& post.phys@ == pre.phys@
        &&& post.child_spaces == pre.child_spaces
    } else {
        exists|root: int|
            {
                &&& FIRST_ALLOC_PAGE <= root < MAX_PAGES
                &&& pre.phys@[root] == 0u8
                &&& #[trigger] post_fork_phys(pre, root, post.phys@)
                &&& (forall|v: int|
                    0 <= v < crate::NUM_PAGES ==> post.space@[v] == (if v < PAGE_TABLE_BASE_IDX {
                        fork_parent_entry(pre.space@[v])
                    } else {
                        pre.space@[v]
                    }))
                &&& match pre.threads.current {
                    None => ret == ENOSYS && post.threads == pre.threads && post.child_spaces
                        == pre.child_spaces,
                    Some(c) => {
                        let saved = pre.threads.threads@.update(
                            c as int,
                            Thread {
                                cpu_state: cpu_state_of_regs(regs),
                                ..pre.threads.threads@[c as int]
                            },
                        );
                        &&& post.threads.current == pre.threads.current
                        &&& post.threads.seed == pre.threads.seed
                        &&& if slots_exhausted(saved) {
                            &&& ret == ENOMEM
                            &&& post.threads.threads@ == saved
                            &&& post.child_spaces == pre.child_spaces
                        } else {
                            exists|i: int|
                                {
                                    &&& #[trigger] lowest_unused(saved, i)
                                    &&& if i == c {
                                        ret == ENOMEM
                                    } else {
                                        &&& ret == i
                                        &&& post.threads.threads@[i].tid == i
                                        &&& post.threads.threads@[i].pid == i
                                        &&& post.threads.threads@[i].parent_tid
                                            == pre.threads.threads@[c as int].tid
                                        &&& post.threads.threads@[i].state == ThreadState::Ready
                                        &&& post.threads.threads@[i].time == now
                                        &&& post.threads.threads@[i].cpu_state == (CpuState {
                                            rax: 0u64,
                                            ..cpu_state_of_regs(regs)
                                        })
                                        &&& post.child_spaces@.len() == pre.child_spaces@.len() + 1
                                        &&& post.child_spaces@.last().root_phys_page == root
                                        &&& post.threads.threads@[i].page_dir == (root * PAGE_SIZE) as u32
                                        &&& (forall|v: int|
                                            0 <= v < crate::NUM_PAGES
                                                ==> post.child_spaces@.last()@[v]
                                                == fork_child_entry_at(
                                                pre.space@,
                                                pre.space.mode,
                                                root,
                                                v,
                                            ))
                                        &&& (forall|j: int|
                                            0 <= j < MAX_THREADS && j != i && j != c
                                                ==> post.threads.threads@[j]
                                                == pre.threads.threads@[j])
                                        &&& post.threads.threads@[c as int] == saved[c as int]
                                    }
                                }
                        }
                    },
                }
            }
    }
}

/// Fork: duplicate the address space copy-on-write, clone the caller into a
/// fresh thread slot whose saved state returns zero, and return the child's
/// identifier to the parent.
#[verifier::rlimit(100)]
pub fn sys_fork(k: &mut Kernel, regs: &Regs, now: u32) -> (r: i32)
    requires
        old(k).wf(),
    ensures
        final(k).wf(),
        fork_effect(*old(k), *final(k), *regs, now, r),
        r < 0 ==> r == ENOMEM || r == ENOSYS,
        thread_invariant(old(k).threads) ==> thread_invariant(final(k).threads),
{
    proof {
        reveal(fork_effect);
        crate::phys::lemma_wf_len(&k.phys);
    }
    let child_space = match k.space.fork_current(&mut k.phys) {
        Some(s) => s,
        None => {
            proof {
                assert(pages_exhausted(old(k).phys@));
            }
            return ENOMEM;
        },
    };
    let ghost fork_root = child_space.root_phys_page as int;
    proof {
        assert(post_fork_phys(*old(k), fork_root, k.phys@));
    }
    let current = match k.threads.current() {
        Some(c) => c,
        None => {
            return ENOSYS;
        },
    };
    let cr3 = child_space.current_cr3();
    k.threads.save_state(current, regs);
    let child = match k.threads.create_thread(Some(current), cr3, true, now) {
        Some(t) => t,
        None => {
            return ENOMEM;
        },
    };
    if child == current {
        proof {
            let pre_t = old(k).threads.threads@;
            let saved = pre_t.update(
                current as int,
                Thread {
                    cpu_state: cpu_state_of_regs(*regs),
                    ..pre_t[current as int]
                },
            );
            assert(lowest_unused(saved, child as int));
        }
        return ENOMEM;
    }
    let ghost table_after_create = k.threads.threads@;
    k.threads.copy_cpu_state(current, child);
    k.threads.set_return(child, 0);
    let ghost child_root = child_space.root_phys_page as int;
    k.child_spaces.push(child_space);
    proof {
        let pre_t = old(k).threads.threads@;
        let saved = pre_t.update(
            current as int,
            Thread {
                cpu_state: cpu_state_of_regs(*regs),
                ..pre_t[current as int]
            },
        );
        assert(lowest_unused(saved, child as int));
        assert(post_fork_phys(*old(k), child_root, k.phys@));
        assert(k.threads.threads@[child as int].cpu_state == (CpuState {
            rax: 0u64,
            ..cpu_state_of_regs(*regs)
        }));
        assert forall|j: int|
            0 <= j < MAX_THREADS && j != child && j != current implies k.threads.threads@[j]
            == pre_t[j] by {
            assert(k.threads.threads@[j] == table_after_create[j]);
            assert(table_after_create[j] == saved[j]);
        }
        assert(k.threads.threads@[current as int] == saved[current as int]);
        assert(k.threads.threads@[child as int].tid == child);
        assert(table_after_create[child as int].pid == child as i32);
        assert(k.threads.threads@[child as int].pid == table_after_create[child as int].pid);
        assert(k.threads.threads@[child as int].pid == child);
        assert(saved[current as int].tid == pre_t[current as int].tid);
        assert(table_after_create[child as int].parent_tid == saved[current as int].tid);
        assert(k.threads.threads@[child as int].parent_tid == table_after_create[
            child as int].parent_tid);
        assert(k.threads.threads@[child as int].parent_tid == pre_t[current as int].tid);
        assert(k.threads.threads@[child as int].state == ThreadState::Ready);
        assert(k.threads.threads@[child as int].time == now);
        assert(k.child_spaces@.len() == old(k).child_spaces@.len() + 1);
        assert(k.child_spaces@.last().root_phys_page == child_root);
        assert(k.threads.threads@[child as int].page_dir == (child_root * PAGE_SIZE) as u32);
        assert(forall|v: int|
            0 <= v < crate::NUM_PAGES ==> k.child_spaces@.last()@[v] == fork_child_entry_at(
                old(k).space@,
                old(k).space.mode,
                child_root,
                v,
            ));
        assert(k.threads.current == old(k).threads.current);
        assert(k.threads.seed == old(k).threads.seed);
        assert(forall|v: int|
            0 <= v < crate::NUM_PAGES ==> k.space@[v] == (if v < PAGE_TABLE_BASE_IDX {
                fork_parent_entry(old(k).space@[v])
            } else {
                old(k).space@[v]
            }));
    }
    child as i32
}

/// The archive really holds the bytes that a found entry records.
pub open spec fn exec_image_fits(archive: Seq<u8>, pos: int, size: int) -> bool {
    &&& pos <= archive.len() as int / 512
    &&& size <= archive.len()
    &&& pos * 512 <= archive.len() - size
}

/// What exec does.  An absent file, or one whose recorded bytes run past the
/// archive, is `ENOENT` with the kernel untouched; from there the caller's
/// user pages are released with no rollback, so a malformed image is
/// `ENOEXEC` with the pages already given up, and a missing current thread
/// is `ENOSYS` with the image's permissions already applied.  On success the
/// caller never sees a return: its space carries the image's segment
/// permissions and its next instant is the image's entry point on a fresh
/// user stack.
#[verifier::opaque]
pub open spec fn exec_effect(
    pre: Kernel,
    post: Kernel,
    path: Seq<u8>,
    ret: i32,
    r: SyscallOutcome,
) -> bool {
    &&& post.vga == pre.vga
    &&& post.fs.archive@ == pre.fs.archive@
    &&& (ret == 0 <==> r is Resume)
    &&& match find_in_tar(pre.fs.archive@, path, 0) {
        None => ret == ENOENT && post.threads == pre.threads && post.space == pre.space
            && post.phys == pre.phys,
        Some(pos_size) => {
            let pos = pos_size.0;
            let size = pos_size.1;
            if !exec_image_fits(pre.fs.archive@, pos, size) {
                ret == ENOENT && post.threads == pre.threads && post.space == pre.space
                    && post.phys == pre.phys
            } else {
                let image = pre.fs.archive@.subrange(pos * 512, pos * 512 + size);
                let freed = free_dec_refs(
                    pre.phys@,
                    pre.space@,
                    pre.space.mode,
                    PAGE_TABLE_BASE_IDX as int,
                );
                &&& post.phys@ == freed
                &&& if !elf_parse_ok(image) {
                    &&& ret == ENOEXEC
                    &&& post.space@ == pre.space@
                    &&& post.threads == pre.threads
                } else {
                    let header = header_spec(image);
                    let segs = segments_spec(
                        image,
                        header.phoff as int,
                        header.phentsize as int,
                        header.phnum as int,
                    );
                    &&& post.space@ == apply_segments(
                        pre.space@,
                        segs,
                        pre.space.mode,
                        segs.len() as int,
                    )
                    &&& match pre.threads.current {
                        None => ret == ENOSYS && post.threads == pre.threads,
                        Some(c) => {
                            &&& ret == 0
                            &&& r == SyscallOutcome::Resume(
                                user_entry_state(header.entry, USER_STACK_TOP as u32),
                                pre.threads.threads@[c as int].page_dir,
                            )
                            &&& post.threads.current == Some(c)
                            &&& post.threads.threads@[c as int].state == ThreadState::Running
                            &&& post.threads.threads@[c as int].cpu_state == user_entry_state(
                                header.entry,
                                USER_STACK_TOP as u32,
                            )
                            &&& (forall|j: int|
                                0 <= j < MAX_THREADS && j != c ==> post.threads.threads@[j]
                                    == pre.threads.threads@[j])
                        },
                    }
                }
            }
        },
    }
}

/// Exec: find the program in the archive, drop the caller's user pages,
/// load the image's segment permissions, attach its symbols, and restart
/// the thread at the new entry point with a fresh user stack.
#[verifier::rlimit(100)]
pub fn sys_exec(k: &mut Kernel, path: &[u8]) -> (r: (i32, SyscallOutcome))
    requires
        old(k).wf(),
    ensures
        final(k).wf(),
        exec_effect(*old(k), *final(k), path@, r.0, r.1),
        r.0 == 0 || r.0 == ENOENT || r.0 == ENOEXEC || r.0 == ENOSYS,
        r.1 is Resume || r.1 == SyscallOutcome::ReturnToCaller,
        thread_invariant(old(k).threads) ==> thread_invariant(final(k).threads),
{
    proof {
        reveal(exec_effect);
    }
    let size = match k.fs.find_file(path) {
        Some(s) => s,
        None => {
            proof {
                assert(find_in_tar(old(k).fs.archive@, path@, 0) is None);
                assert(k.threads == old(k).threads);
                assert(k.space == old(k).space);
                assert(k.phys == old(k).phys);
                assert(k.vga == old(k).vga);
                assert(k.fs.archive@ == old(k).fs.archive@);
            }
            return (ENOENT, SyscallOutcome::ReturnToCaller);
        },
    };
    proof {
        crate::phys::lemma_wf_len(&k.phys);
        crate::tar::lemma_find_in_tar_range(old(k).fs.archive@, path@, 0);
    }
    // The archive must actually hold the recorded bytes.
    let archive_len = k.fs.archive.len();
    if k.fs.current_block > archive_len / 512 || size > archive_len || k.fs.current_block * 512
        > archive_len - size {
        proof {
            let scan = find_in_tar(old(k).fs.archive@, path@, 0);
            assert(scan is Some);
            assert(!exec_image_fits(old(k).fs.archive@, scan.unwrap().0, scan.unwrap().1));
            assert(k.threads == old(k).threads);
            assert(k.space == old(k).space);
            assert(k.phys == old(k).phys);
        }
        return (ENOENT, SyscallOutcome::ReturnToCaller);
    }
    let buffer = k.fs.read_file(size);
    // Drop the caller's claim on its user pages before the new image.
    k.space.free_user_pages(&mut k.phys);
    k.space.flush_tlb();
    let elf = match Elf::parse(buffer.as_slice()) {
        Ok(e) => e,
        Err(_) => {
            return (ENOEXEC, SyscallOutcome::ReturnToCaller);
        },
    };
    let entry = crate::elf::load_elf(&mut k.space, &elf);
    let symbols = crate::symbols::SymbolData::new(buffer);
    let current = match k.threads.current() {
        Some(c) => c,
        None => {
            return (ENOSYS, SyscallOutcome::ReturnToCaller);
        },
    };
    let ghost table_pre_exec = k.threads.threads@;
    k.threads.set_symbols(current, symbols);
    let ghost table_after_symbols = k.threads.threads@;
    k.threads.init_process_thread(current, entry, USER_STACK_TOP as u32);
    let ghost table_after_init = k.threads.threads@;
    let (state, page_dir) = k.threads.exit_to_thread(current);
    proof {
        assert(k.threads.threads@[current as int].cpu_state == user_entry_state(
            entry,
            USER_STACK_TOP as u32,
        ));
        assert(k.threads.threads@[current as int].state == ThreadState::Running);
        assert forall|j: int|
            0 <= j < MAX_THREADS && j != current implies k.threads.threads@[j]
            == old(k).threads.threads@[j] by {
            assert(k.threads.threads@[j] == table_after_init[j]);
            assert(table_after_init[j] == table_after_symbols[j]);
            assert(table_after_symbols[j] == table_pre_exec[j]);
        }
        assert(table_pre_exec == old(k).threads.threads@);
        assert(table_after_symbols[current as int].page_dir == table_pre_exec[
            current as int].page_dir);
        assert(table_after_init[current as int].page_dir == table_after_symbols[
            current as int].page_dir);
        assert(page_dir == table_after_init[current as int].page_dir);
        assert(page_dir == old(k).threads.threads@[current as int].page_dir);
    }
    (0, SyscallOutcome::Resume(state, page_dir))
}

/// Open: look a file up in the archive and return its size, or `ENOENT`.
pub fn sys_open(k: &mut Kernel, path: &[u8]) -> (r: i32)
    requires
        old(k).wf(),
    ensures
        final(k).wf(),
        final(k).fs.archive@ == old(k).fs.archive@,
        final(k).threads == old(k).threads,
        final(k).space == old(k).space,
        final(k).phys == old(k).phys,
        final(k).vga == old(k).vga,
        match find_in_tar(old(k).fs.archive@, path@, 0) {
            Some(pos_size) => r == pos_size.1 as usize as i32,
            None => r == ENOENT,
        },
{
    match k.fs.find_file(path) {
        Some(size) => size as i32,
        None => ENOENT,
    }
}

/// Read: standard input drains to nothing; no other descriptor is readable.
pub fn sys_read(fd: u64) -> (r: i32)
    ensures
        fd == 0 ==> r == 0,
        fd != 0 ==> r == ENOSYS,
{
    if fd == 0 {
        0
    } else {
        ENOSYS
    }
}

/// Write: standard output and standard error go to the console, byte by
/// byte, and the count written comes back; no other descriptor is writable.
pub fn sys_write(k: &mut Kernel, fd: u64, buf: &[u8]) -> (r: i32)
    requires
        old(k).wf(),
        buf@.len() <= 0x7FFF_FFFF,
    ensures
        final(k).wf(),
        final(k).threads == old(k).threads,
        final(k).space == old(k).space,
        final(k).phys == old(k).phys,
        final(k).fs == old(k).fs,
        fd == 1 || fd == 2 ==> {
            &&& final(k).vga@ == vga_write_spec(old(k).vga@, buf@, buf@.len() as int)
            &&& r == buf@.len()
        },
        fd != 1 && fd != 2 ==> r == ENOSYS && final(k).vga@ == old(k).vga@,
{
    if fd == 1 || fd == 2 {
        k.vga.write_bytes(buf);
        buf.len() as i32
    } else {
        ENOSYS
    }
}

/// Dispatch `int 0x80`: route on the number in `eax`, run the handler with
/// the user bytes the trap path fetched, and write the result back into the
/// frame's `eax`, sign-extended through 32 bits.  Numbers with no handler
/// return `ENOSYS`; nothing but `eax` is ever written back.
#[verifier::rlimit(100)]
pub fn dispatch(k: &mut Kernel, regs: &mut Regs, user_buf: &[u8], now: u32) -> (r: SyscallOutcome)
    requires
        old(k).wf(),
        user_buf@.len() <= 0x7FFF_FFFF,
    ensures
        final(k).wf(),
        *final(regs) == (Regs { rax: final(regs).rax, ..*old(regs) }),
        ({
            let num = old(regs).rax;
            &&& num == 0 ==> exit_effect(*old(k), *final(k), r) && final(regs).rax == old(regs).rax
            &&& num == 1 ==> yield_effect(*old(k), *final(k), *old(regs), r) && (r
                == SyscallOutcome::ReturnToCaller ==> final(regs).rax == 0)
            &&& num == 4 ==> r == SyscallOutcome::ReturnToCaller && exists|ret: i32|
                #[trigger] fork_effect(*old(k), *final(k), *old(regs), now, ret) && final(regs).rax == (ret as u32) as u64
            &&& num == 5 ==> exists|ret: i32|
                #[trigger] exec_effect(*old(k), *final(k), user_buf@, ret, r) && (r
                    == SyscallOutcome::ReturnToCaller ==> final(regs).rax == (ret as u32) as u64)
            &&& num == 6 ==> {
                &&& r == SyscallOutcome::ReturnToCaller
                &&& final(regs).rax == ((match find_in_tar(old(k).fs.archive@, user_buf@, 0) {
                    Some(pos_size) => pos_size.1 as usize as i32,
                    None => ENOENT,
                }) as u32) as u64
            }
            &&& num == 8 ==> {
                &&& r == SyscallOutcome::ReturnToCaller
                &&& final(regs).rax == ((if old(regs).rdx == 0 {
                    0i32
                } else {
                    ENOSYS
                }) as u32) as u64
            }
            &&& num == 9 ==> {
                &&& r == SyscallOutcome::ReturnToCaller
                &&& ((old(regs).rdx == 1 || old(regs).rdx == 2) ==> final(k).vga@
                    == vga_write_spec(old(k).vga@, user_buf@, user_buf@.len() as int) && final(regs).rax == (user_buf@.len() as u32) as u64)
            }
            &&& (num == 2 || num == 3 || num == 7 || num >= 10) ==> {
                &&& r == SyscallOutcome::ReturnToCaller
                &&& final(regs).rax == (ENOSYS as u32) as u64
                &&& *final(k) == *old(k)
            }
        }),
{
    let num = regs.rax;
    if num == 0 {
        let r = sys_exit(k);
        proof {
            assert(exit_effect(*old(k), *k, r));
            assert(*regs == *old(regs));
            assert(*regs == (Regs { rax: regs.rax, ..*old(regs) }));
        }
        return r;
    }
    if num == 1 {
        let frozen: Regs = *regs;
        let outcome = sys_yield(k, &frozen);
        match outcome {
            SyscallOutcome::ReturnToCaller => {
                regs.rax = 0;
                return SyscallOutcome::ReturnToCaller;
            },
            _ => {
                proof {
                    assert(yield_effect(*old(k), *k, *old(regs), outcome));
                    assert(*regs == (Regs { rax: regs.rax, ..*old(regs) }));
                }
                return outcome;
            },
        }
    }
    if num == 4 {
        let frozen: Regs = *regs;
        let result = sys_fork(k, &frozen, now);
        proof {
            assert(fork_effect(*old(k), *k, frozen, now, result));
        }
        regs.rax = (result as u32) as u64;
        return SyscallOutcome::ReturnToCaller;
    }
    if num == 5 {
        let (result, outcome) = sys_exec(k, user_buf);
        proof {
            assert(exec_effect(*old(k), *k, user_buf@, result, outcome));
        }
        match outcome {
            SyscallOutcome::Resume(state, page_dir) => {
                proof {
                    assert(*regs == (Regs { rax: regs.rax, ..*old(regs) }));
                }
                return SyscallOutcome::Resume(state, page_dir);
            },
            _ => {
                regs.rax = (result as u32) as u64;
                return SyscallOutcome::ReturnToCaller;
            },
        }
    }
    if num == 6 {
        let result = sys_open(k, user_buf);
        regs.rax = (result as u32) as u64;
        return SyscallOutcome::ReturnToCaller;
    }
    if num == 8 {
        let fd = regs.rdx;
        let result = sys_read(fd);
        regs.rax = (result as u32) as u64;
        return SyscallOutcome::ReturnToCaller;
    }
    if num == 9 {
        let fd = regs.rdx;
        let result = sys_write(k, fd, user_buf);
        regs.rax = (result as u32) as u64;
        return SyscallOutcome::ReturnToCaller;
    }
    regs.rax = (ENOSYS as u32) as u64;
    SyscallOutcome::ReturnToCaller
}

/// How a page fault leaves the machine once the thread layer has had its
/// say.
#[derive(Clone, Copy, PartialEq, Eq, Structural, Debug)]
pub enum FaultDisposition {
    /// The mapping was fixed: return to the faulting instruction.
    Continue,
    /// The faulting thread died; pop this state — after loading the page
    /// directory when it is nonzero — and `iret` into the picked thread.
    Resume(CpuState, u32),
    /// The faulting thread died and nothing else can run.
    Halt,
    /// A kernel-level failure: register dump and halt forever.
    Panic,
}

/// The whole page-fault trap: run the paging handler, and when it signals a
/// user violation deliver the SEGV — the faulting thread is retired and the
/// scheduler forced to pick a successor; a fault with no current thread, in
/// the init process, or in kernel context is a panic.
#[verifier::rlimit(100)]
pub fn handle_page_fault(
    k: &mut Kernel,
    fault_addr: u64,
    err_code: u64,
    zero_page: usize,
) -> (r: FaultDisposition)
    requires
        old(k).wf(),
        fault_addr < crate::fault::ADDRESS_SPACE_END,
        zero_page < 0x100000,
    ensures
        final(k).wf(),
        final(k).vga == old(k).vga,
        final(k).fs == old(k).fs,
        final(k).child_spaces == old(k).child_spaces,
        r is Resume || r == FaultDisposition::Halt ==> old(k).threads.current is Some,
{
    let outcome = crate::fault::page_fault(
        &mut k.space,
        &mut k.phys,
        fault_addr,
        err_code,
        zero_page,
    );
    match outcome {
        crate::fault::FaultOutcome::Handled => FaultDisposition::Continue,
        crate::fault::FaultOutcome::Panic => FaultDisposition::Panic,
        crate::fault::FaultOutcome::Segv => {
            let current = match k.threads.current() {
                Some(c) => c,
                None => {
                    return FaultDisposition::Panic;
                },
            };
            match k.threads.signal_thread(current) {
                SignalOutcome::KernelPanic => FaultDisposition::Panic,
                SignalOutcome::MarkedZombie => FaultDisposition::Continue,
                SignalOutcome::MustReschedule => {
                    let exclude = k.threads.threads[current].tid;
                    proof {
                        lemma_reservoir_pick_ready(
                            k.threads.threads@,
                            exclude as int,
                            lcg_next(old(k).threads.seed),
                            MAX_THREADS as int,
                        );
                        lemma_reservoir_pick_range(
                            k.threads.threads@,
                            exclude as int,
                            lcg_next(old(k).threads.seed),
                            MAX_THREADS as int,
                        );
                    }
                    let decision = k.threads.schedule(exclude, true);
                    match decision {
                        SchedDecision::Switch(t) => {
                            let (state, page_dir) = k.threads.exit_to_thread(t);
                            FaultDisposition::Resume(state, page_dir)
                        },
                        SchedDecision::Stay => FaultDisposition::Halt,
                    }
                },
            }
        },
    }
}

} // verus!
