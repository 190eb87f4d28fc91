//! Console, descriptors, interrupt dispatch, threads and syscalls on
//! concrete values.

use retro_kernel::boot::{cpu_supports_long_mode, cpu_supports_nx, cpu_supports_pae, enable_legacy,
    enable_pae, pick_paging_mode, LegacyPages, PaePages, PageTable32, PageTable64};
use retro_kernel::descriptors::{build_gdt, build_idt32, build_idt64, GdtEntry, IdtEntry32, Tss,
    KERNEL_CS, KERNEL_CS64, USER_CS, USER_DS};
use retro_kernel::irq::{init_pit, pit_divisor, remap_pic, IrqAction, IrqController};
use retro_kernel::phys::{MMapEntry, PhysMemory};
use retro_kernel::pte::PagingMode;
use retro_kernel::space::AddressSpace;
use retro_kernel::fault::{isr_route, TrapRoute};
use retro_kernel::syscalls::{dispatch, handle_page_fault, sys_read, sys_write, FaultDisposition,
    Kernel, SyscallOutcome, ENOENT, ENOSYS};
use retro_kernel::tar::TarReader;
use retro_kernel::thread::{Frame32, Regs, SchedDecision, SignalOutcome, Thread, ThreadState,
    ThreadTable, CpuState};
use retro_kernel::vga::Vga;

#[test]
fn vga_prints_and_advances() {
    let mut v = Vga::new();
    v.putchar(b'A');
    v.putchar(b'B');
    assert_eq!(v.cell_at(0, 0), 0x0741);
    assert_eq!(v.cell_at(1, 0), 0x0742);
    v.putchar(b'\n');
    v.putchar(b'C');
    assert_eq!(v.cell_at(0, 1), 0x0743);
    assert_eq!(v.debug_bytes().as_slice(), b"AB\nC");
}

#[test]
fn vga_colour_escape_changes_attribute() {
    let mut v = Vga::new();
    v.write_bytes(b"\x1b[92mG");
    // Bright green (ANSI 2 maps to VGA 2, plus the bright bit) on black.
    assert_eq!(v.cell_at(0, 0), 0x0A47);
    v.write_bytes(b"\x1b[0mN");
    assert_eq!(v.cell_at(1, 0), 0x074E);
    // Escape bytes still reach the debug port.
    assert_eq!(v.debug_bytes().len(), 11);
}

#[test]
fn vga_ansi_colour_map() {
    assert_eq!(Vga::ansi_to_vga(0, false), 0);
    assert_eq!(Vga::ansi_to_vga(1, false), 4);
    assert_eq!(Vga::ansi_to_vga(3, false), 6);
    assert_eq!(Vga::ansi_to_vga(4, false), 1);
    assert_eq!(Vga::ansi_to_vga(7, true), 15);
}

#[test]
fn vga_scrolls_at_bottom() {
    let mut v = Vga::new();
    v.putchar(b'X');
    // Fill 25 lines; the X scrolls off only on the 25th newline.
    for _ in 0..25 {
        v.putchar(b'\n');
    }
    v.putchar(b'Y');
    assert_eq!(v.cell_at(0, 24), 0x0759);
    assert_eq!(v.cell_at(0, 0), 0x0720);
}

#[test]
fn gdt_layout_matches_selectors() {
    let gdt = build_gdt(0x1234, 0x5678, 103);
    assert_eq!(gdt.len(), 10);
    assert_eq!(gdt[0], GdtEntry::null());
    // Kernel code and data: present, ring 0.
    assert_eq!(gdt[1].access, 0x9A);
    assert_eq!(gdt[2].access, 0x92);
    // User code 0x18 and user data 0x20: ring 3.
    assert_eq!(gdt[3].access, 0xFA);
    assert_eq!(gdt[4].access, 0xF2);
    // The 32-bit TSS at 0x28 carries its base address.
    assert_eq!(gdt[5].base_low, 0x1234);
    assert_eq!(gdt[5].access, 0x89);
    // The long-mode add-on sits above: 64-bit code, then the 64-bit TSS.
    assert_eq!(gdt[6].access, 0x9A);
    assert_eq!(gdt[6].granularity, 0xAF);
    assert_eq!(gdt[7].access, 0xFA);
    assert_eq!(gdt[8].base_low, 0x5678);
    assert_eq!(usize::from(KERNEL_CS), 0x08);
    assert_eq!(usize::from(USER_CS), 0x1B);
    assert_eq!(usize::from(USER_DS), 0x23);
}

#[test]
fn idt_gates_ring_three_only_where_user_may_trap() {
    let idt = build_idt32(0x10000);
    assert_eq!(idt.len(), 0x81);
    // Ring 0 for faults the user must not raise directly.
    assert_eq!(idt[0].type_attr, 0x8E);
    assert_eq!(idt[14].type_attr, 0x8E);
    // Breakpoint, overflow and bound-range are reachable from ring 3.
    assert_eq!(idt[3].type_attr, 0xEE);
    assert_eq!(idt[4].type_attr, 0xEE);
    assert_eq!(idt[5].type_attr, 0xEE);
    assert_eq!(idt[6].type_attr, 0x8E);
    // The stubs are eight bytes apart, through the kernel code segment.
    assert_eq!(idt[1].offset_low, 0x0008);
    assert_eq!(idt[1].selector, KERNEL_CS);
    // The syscall gate reuses stub 48 with ring-3 access.
    assert_eq!(idt[0x80].type_attr, 0xEE);
    assert_eq!(idt[0x80].offset_low, 0x0180);
    // Unused slots are absent.
    assert_eq!(idt[0x40], IdtEntry32::null());
    let idt64 = build_idt64(0x10000);
    assert_eq!(idt64[3].type_attr, 0xEE);
    assert_eq!(idt64[3].selector, KERNEL_CS64);
}

#[test]
fn tss_packs_kernel_stack() {
    let mut tss = Tss::new();
    assert_eq!(tss.io_map_base, 104);
    tss.set_kernel_stack(0xCAFE_0000);
    assert_eq!(tss.sp0, 0x0000_0010_CAFE_0000);
    tss.set_kernel_stack_64(0x1_0000_0000);
    assert_eq!(tss.sp0, 0x1_0000_0000);
}

#[test]
fn pic_programming_words() {
    let (master, slave) = remap_pic();
    assert_eq!(master.icw1, 0x11);
    assert_eq!(master.icw2, 32);
    assert_eq!(master.icw3, 4);
    assert_eq!(master.icw4, 1);
    assert_eq!(master.mask, 0xFB);
    assert_eq!(slave.icw2, 40);
    assert_eq!(slave.icw3, 2);
    assert_eq!(slave.mask, 0xFF);
}

#[test]
fn pit_divisor_clamps() {
    assert_eq!(pit_divisor(0), 0);
    assert_eq!(pit_divisor(1000), 1193);
    assert_eq!(pit_divisor(1), 65535);
    assert_eq!(pit_divisor(0x8000_0000), 1);
    let (cmd, lo, hi) = init_pit(1000);
    assert_eq!(cmd, 0x36);
    assert_eq!(lo, (1193 & 0xFF) as u8);
    assert_eq!(hi, (1193 >> 8) as u8);
}

#[test]
fn irq_registration_unmasks_once() {
    let mut c = IrqController::init_interrupts();
    assert!(c.register_irq(0));
    assert_eq!(c.master_mask, 0xFA);
    // Already unmasked: refused, as is a line out of range.
    assert!(!c.register_irq(0));
    assert!(!c.register_irq(16));
    assert!(c.register_irq(8));
    assert_eq!(c.slave_mask, 0xFE);
}

#[test]
fn irq_timer_ticks_and_keyboard_reads() {
    let mut c = IrqController::init_interrupts();
    c.register_irq(0);
    c.register_irq(1);
    assert_eq!(c.get_ticks(), 0);
    let r = c.handle_irq(32, 0xFF, 0);
    assert_eq!(r, IrqAction::Handled { irq: 0, eoi_master_first: false, ran_handler: true });
    assert_eq!(c.get_ticks(), 1);
    let r = c.handle_irq(33, 0xFF, 0x2A);
    assert_eq!(r, IrqAction::Handled { irq: 1, eoi_master_first: false, ran_handler: true });
    assert_eq!(c.last_scancode, 0x2A);
    // A slave line acknowledges the master first.
    let r = c.handle_irq(40, 0xFF, 0);
    assert_eq!(r, IrqAction::Handled { irq: 8, eoi_master_first: true, ran_handler: false });
}

#[test]
fn spurious_irq_seven_is_ignored() {
    let mut c = IrqController::init_interrupts();
    c.register_irq(0);
    c.handle_irq(32, 0xFF, 0);
    let ticks = c.get_ticks();
    // Vector 39 is IRQ 7; with its in-service bit clear nothing happens and
    // nothing is acknowledged.
    let r = c.handle_irq(39, 0x00, 0);
    assert_eq!(r, IrqAction::Spurious);
    assert_eq!(c.get_ticks(), ticks);
    // With the bit set it is a real interrupt.
    let r = c.handle_irq(39, 0x80, 0);
    assert_eq!(r, IrqAction::Handled { irq: 7, eoi_master_first: false, ran_handler: false });
    // IRQ 15 behaves the same through the slave.
    assert_eq!(c.handle_irq(47, 0x00, 0), IrqAction::Spurious);
}

#[test]
fn cpu_feature_decoding() {
    assert!(cpu_supports_pae(0x40));
    assert!(!cpu_supports_pae(0x20));
    assert!(cpu_supports_long_mode(0x8000_0001, 1 << 29));
    assert!(!cpu_supports_long_mode(0x8000_0000, 1 << 29));
    assert!(cpu_supports_nx(0x8000_0001, 1 << 20));
    assert!(!cpu_supports_nx(0x8000_0001, 0));
    assert_eq!(pick_paging_mode(0x40), PagingMode::Pae);
    assert_eq!(pick_paging_mode(0), PagingMode::Legacy);
}

#[test]
fn boot_page_tables_know_their_place() {
    let pt32 = PageTable32::new(0x123);
    assert_eq!(pt32.phys_page(), 0x123);
    assert_eq!(pt32.phys_addr(), 0x123000);
    let pt64 = PageTable64::new(0x456);
    assert_eq!(pt64.phys_page(), 0x456);
    assert_eq!(pt64.phys_addr(), 0x456000);
    assert_eq!(pt32.entries.len(), 1024);
    assert_eq!(pt64.entries.len(), 512);
}

fn zero_regs() -> Regs {
    Regs {
        gs: 0,
        fs: 0,
        es: 0,
        ds: 0,
        r15: 0,
        r14: 0,
        r13: 0,
        r12: 0,
        r11: 0,
        r10: 0,
        r9: 0,
        r8: 0,
        rdi: 0,
        rsi: 0,
        rbp: 0,
        rsp_dummy: 0,
        rbx: 0,
        rdx: 0,
        rcx: 0,
        rax: 0,
        int_num: 48,
        err_code: 0,
        frame: Frame32 { eip: 0x2000, cs: 0x1B, eflags: 0x202, esp: 0xBFFF_F000, ss: 0x23 },
    }
}

#[test]
fn thread_table_starts_with_running_init() {
    let t = ThreadTable::init_threading(0x9000);
    assert_eq!(t.current(), Some(0));
    assert_eq!(t.threads[0].state, ThreadState::Running);
    assert_eq!(t.threads[0].page_dir, 0x9000);
    assert_eq!(t.threads[1].state, ThreadState::Unused);
    assert!(t.get_thread(0).is_some());
    assert!(t.get_thread(1).is_none());
    assert!(t.get_thread(4096).is_none());
    let empty = Thread::empty();
    assert_eq!(empty.parent_tid, -1);
    assert_eq!(empty.fds, vec![-1; 16]);
}

#[test]
fn create_thread_takes_lowest_slot_and_inherits() {
    let mut t = ThreadTable::init_threading(0x9000);
    let a = t.create_thread(Some(0), 0x5000, true, 7).unwrap();
    assert_eq!(a, 1);
    assert_eq!(t.threads[1].tid, 1);
    assert_eq!(t.threads[1].pid, 1);
    assert_eq!(t.threads[1].parent_tid, 0);
    assert_eq!(t.threads[1].state, ThreadState::Ready);
    assert_eq!(t.threads[1].time, 7);
    assert_eq!(t.threads[1].page_dir, 0x5000);
    // A plain thread inherits the parent's process.
    let b = t.create_thread(Some(1), 0, false, 8).unwrap();
    assert_eq!(b, 2);
    assert_eq!(t.threads[2].pid, 1);
}

#[test]
fn save_and_restore_round_trip() {
    let mut t = ThreadTable::init_threading(0);
    let mut regs = zero_regs();
    regs.rax = 0x1111;
    regs.rbx = 0x2222;
    regs.rdi = 0x3333;
    t.save_state(0, &regs);
    let (state, page_dir) = t.exit_to_thread(0);
    assert_eq!(page_dir, 0);
    // The frame comes back exactly as it was trapped.
    assert_eq!(state.rax, 0x1111);
    assert_eq!(state.rbx, 0x2222);
    assert_eq!(state.rdi, 0x3333);
    assert_eq!(state.frame, regs.frame);
    assert_eq!(state.int_num, regs.int_num);
    assert_eq!(t.threads[0].state, ThreadState::Running);
}

#[test]
fn user_process_state_enters_ring_three() {
    let mut s = CpuState::empty();
    s.init_user_process(0x4000, 0xBFFF_0000);
    assert_eq!(s.frame.eip, 0x4000);
    assert_eq!(s.frame.cs, u32::from(USER_CS));
    assert_eq!(s.frame.ss, u32::from(USER_DS));
    assert_eq!(s.frame.esp, 0xBFFF_0000);
    // Interrupts on in user mode; registers clean.
    assert_eq!(s.frame.eflags, 0x200);
    assert_eq!(s.rax, 0);
    assert_eq!(s.gs, u64::from(USER_DS));
}

#[test]
fn scheduler_picks_the_only_ready_thread() {
    let mut t = ThreadTable::init_threading(0);
    let child = t.create_thread(Some(0), 0, true, 1).unwrap();
    match t.schedule(0, false) {
        SchedDecision::Switch(next) => assert_eq!(next, child),
        SchedDecision::Stay => panic!("a ready thread must be picked"),
    }
    // Excluding the only candidate leaves nothing; without a forced switch
    // the caller keeps running.
    assert_eq!(t.schedule(child as i32, false), SchedDecision::Stay);
}

#[test]
fn scheduler_falls_back_to_idle_on_forced_switch() {
    let mut t = ThreadTable::init_threading(0);
    let child = t.create_thread(Some(0), 0, true, 1).unwrap();
    let (_, _) = t.exit_to_thread(child);
    t.exit_thread();
    assert_eq!(t.threads[child].state, ThreadState::Unused);
    // Nothing is ready, so a forced switch lands on the idle thread.
    assert_eq!(t.schedule(-1, true), SchedDecision::Switch(0));
}

#[test]
fn signal_kills_user_thread_and_panics_kernel() {
    let mut t = ThreadTable::init_threading(0);
    let child = t.create_thread(Some(0), 0, true, 1).unwrap();
    // A fault in the init process is fatal for the kernel.
    assert_eq!(t.signal_thread(0), SignalOutcome::KernelPanic);
    // A fault in a thread that is not running leaves a zombie.
    assert_eq!(t.signal_thread(child), SignalOutcome::MarkedZombie);
    assert_eq!(t.threads[child].state, ThreadState::Zombie);
    let (_, _) = t.exit_to_thread(child);
    assert_eq!(t.signal_thread(child), SignalOutcome::MustReschedule);
    assert_eq!(t.threads[child].state, ThreadState::Unused);
}

fn small_kernel() -> Kernel {
    let mut mmap: Vec<MMapEntry> = Vec::new();
    mmap.push(MMapEntry { base: 0, length: 0x100_0000, typ: 1, acpi: 1 });
    Kernel {
        threads: ThreadTable::init_threading(0x9000),
        space: AddressSpace::new_empty(PagingMode::Pae, false, 300),
        phys: PhysMemory::init_phys_mm(&mmap, 1, 256, 260),
        vga: Vga::new(),
        fs: TarReader::init_fs(Vec::new()),
        child_spaces: Vec::new(),
    }
}

#[test]
fn unknown_syscall_is_enosys() {
    let mut k = small_kernel();
    let mut regs = zero_regs();
    regs.rax = 99;
    let r = dispatch(&mut k, &mut regs, b"", 0);
    assert_eq!(r, SyscallOutcome::ReturnToCaller);
    assert_eq!(regs.rax, (ENOSYS as u32) as u64);
    regs.rax = 2;
    dispatch(&mut k, &mut regs, b"", 0);
    assert_eq!(regs.rax, (ENOSYS as u32) as u64);
}

#[test]
fn write_syscall_reaches_console() {
    let mut k = small_kernel();
    let mut regs = zero_regs();
    regs.rax = 9;
    regs.rdx = 1;
    regs.rbx = 3;
    let r = dispatch(&mut k, &mut regs, b"hi\n", 0);
    assert_eq!(r, SyscallOutcome::ReturnToCaller);
    assert_eq!(regs.rax, 3);
    assert_eq!(k.vga.debug_bytes().as_slice(), b"hi\n");
    // Writing anywhere else is not supported.
    assert_eq!(sys_write(&mut k, 5, b"x"), ENOSYS);
    assert_eq!(sys_read(0), 0);
    assert_eq!(sys_read(3), ENOSYS);
}

#[test]
fn open_syscall_reports_size_or_enoent() {
    let mut k = small_kernel();
    // An archive with one file of nine bytes.
    let mut archive = Vec::new();
    let mut header = vec![0u8; 512];
    header[..8].copy_from_slice(b"init.elf");
    header[124..135].copy_from_slice(b"00000000011");
    header[156] = b'0';
    archive.extend_from_slice(&header);
    archive.extend_from_slice(&[0u8; 512]);
    archive.extend_from_slice(&[0u8; 512]);
    k.fs = TarReader::init_fs(archive);
    let mut regs = zero_regs();
    regs.rax = 6;
    dispatch(&mut k, &mut regs, b"init.elf", 0);
    assert_eq!(regs.rax, 9);
    regs.rax = 6;
    dispatch(&mut k, &mut regs, b"nope", 0);
    assert_eq!(regs.rax, (ENOENT as u32) as u64);
}

#[test]
fn fork_syscall_clones_the_caller() {
    let mut k = small_kernel();
    let page = k.phys.alloc_phys_page().unwrap();
    k.space.set_entry(5, page, true, true);
    let mut regs = zero_regs();
    regs.rax = 4;
    regs.rbx = 0x77;
    let r = dispatch(&mut k, &mut regs, b"", 3);
    assert_eq!(r, SyscallOutcome::ReturnToCaller);
    // The parent sees the child's identifier; the child will see zero.
    assert_eq!(regs.rax, 1);
    assert_eq!(k.threads.threads[1].state, ThreadState::Ready);
    assert_eq!(k.threads.threads[1].cpu_state.rax, 0);
    assert_eq!(k.threads.threads[1].cpu_state.rbx, 0x77);
    assert_eq!(k.threads.threads[1].pid, 1);
    // Copy-on-write took hold on both sides.
    assert!(!k.space.is_writable(5));
    assert_eq!(k.child_spaces.len(), 1);
    assert!(!k.child_spaces[0].is_writable(5));
    assert_eq!(k.phys.get_ref_count(page), 2);
}

#[test]
fn yield_syscall_switches_to_ready_thread() {
    let mut k = small_kernel();
    let child = k.threads.create_thread(Some(0), 0, true, 1).unwrap();
    k.threads.init_process_thread(child, 0x4000, 0xBFFF_0000);
    let mut regs = zero_regs();
    regs.rax = 1;
    let r = dispatch(&mut k, &mut regs, b"", 0);
    match r {
        SyscallOutcome::Resume(state, _) => {
            assert_eq!(state.frame.eip, 0x4000);
        },
        _ => panic!("the ready child must be scheduled"),
    }
    assert_eq!(k.threads.current(), Some(child));
    assert_eq!(k.threads.threads[0].state, ThreadState::Ready);
}

#[test]
fn exit_syscall_never_returns_to_caller() {
    let mut k = small_kernel();
    let mut regs = zero_regs();
    regs.rax = 0;
    // The only thread exits: nothing left to run.
    let r = dispatch(&mut k, &mut regs, b"", 0);
    assert_eq!(r, SyscallOutcome::Halt);
    assert_eq!(k.threads.threads[0].state, ThreadState::Unused);
}

fn machine_tar(name: &[u8], data: &[u8]) -> Vec<u8> {
    let mut archive = Vec::new();
    let mut header = vec![0u8; 512];
    header[..name.len()].copy_from_slice(name);
    let mut size = data.len();
    for slot in 0..11 {
        header[124 + 10 - slot] = b'0' + ((size % 8) as u8);
        size /= 8;
    }
    header[156] = b'0';
    archive.extend_from_slice(&header);
    archive.extend_from_slice(data);
    let pad = (512 - data.len() % 512) % 512;
    archive.extend_from_slice(&vec![0u8; pad]);
    archive.extend_from_slice(&vec![0u8; 512]);
    archive
}

/// A bare but valid executable: the header, one loadable code segment, no
/// sections.
fn exec_image() -> Vec<u8> {
    let mut d = Vec::new();
    d.extend_from_slice(&0x464C_457Fu32.to_le_bytes());
    d.push(1);
    d.push(1);
    d.extend_from_slice(&[0u8; 10]);
    d.extend_from_slice(&2u16.to_le_bytes());
    d.extend_from_slice(&3u16.to_le_bytes());
    d.extend_from_slice(&1u32.to_le_bytes());
    d.extend_from_slice(&0x1000u32.to_le_bytes()); // entry
    d.extend_from_slice(&52u32.to_le_bytes()); // phoff
    d.extend_from_slice(&0u32.to_le_bytes()); // no sections
    d.extend_from_slice(&0u32.to_le_bytes());
    d.extend_from_slice(&52u16.to_le_bytes());
    d.extend_from_slice(&32u16.to_le_bytes());
    d.extend_from_slice(&1u16.to_le_bytes());
    d.extend_from_slice(&40u16.to_le_bytes());
    d.extend_from_slice(&0u16.to_le_bytes());
    d.extend_from_slice(&0u16.to_le_bytes());
    // The one segment: four code bytes at 0x1000.
    d.extend_from_slice(&1u32.to_le_bytes());
    d.extend_from_slice(&84u32.to_le_bytes());
    d.extend_from_slice(&0x1000u32.to_le_bytes());
    d.extend_from_slice(&0x1000u32.to_le_bytes());
    d.extend_from_slice(&4u32.to_le_bytes());
    d.extend_from_slice(&4u32.to_le_bytes());
    d.extend_from_slice(&5u32.to_le_bytes());
    d.extend_from_slice(&0x1000u32.to_le_bytes());
    d.extend_from_slice(&[0x90, 0x90, 0x90, 0xC3]);
    d
}

#[test]
fn exec_syscall_restarts_thread_at_entry() {
    let mut k = small_kernel();
    k.fs = TarReader::init_fs(machine_tar(b"init.elf", &exec_image()));
    let mut regs = zero_regs();
    regs.rax = 5;
    let r = dispatch(&mut k, &mut regs, b"init.elf", 0);
    match r {
        SyscallOutcome::Resume(state, _) => {
            assert_eq!(state.frame.eip, 0x1000);
            assert_eq!(state.frame.esp, 0xC000_0000);
            assert_eq!(state.frame.cs, u32::from(USER_CS));
        },
        _ => panic!("a found program must be entered"),
    }
    assert_eq!(k.threads.current(), Some(0));
    assert_eq!(k.threads.threads[0].state, ThreadState::Running);
    // A missing program never replaces the caller.
    let mut regs = zero_regs();
    regs.rax = 5;
    let r = dispatch(&mut k, &mut regs, b"nope", 0);
    assert_eq!(r, SyscallOutcome::ReturnToCaller);
    assert_eq!(regs.rax, (ENOENT as u32) as u64);
}

#[test]
fn boot_tables_wire_up_the_recursive_map() {
    // Legacy: the directory points at itself from slot 768.
    let mut legacy = LegacyPages { pd: PageTable32::new(0x100), pt_kernel: PageTable32::new(0x101) };
    let mut scratch32 = PageTable32::new(0x102);
    enable_legacy(&mut legacy, &mut scratch32, 0x20_0000, 8);
    assert_eq!(legacy.pd.entries[768].0 & 0xFFFF_F000, 0x100 << 12);
    assert_eq!(legacy.pd.entries[0].0 & 0xFFFF_F000, 0x102 << 12);
    assert_eq!(legacy.pd.entries[770].0 & 0xFFFF_F000, 0x101 << 12);
    // The identity map and the kernel map point where they should.
    assert_eq!(scratch32.entries[7].0, (7 << 12) | 0x3);
    assert_eq!(legacy.pt_kernel.entries[512].0, 0x3);
    assert_eq!(legacy.pt_kernel.entries[768].0, (0x200 << 12) | 0x3);

    // PAE: the pointer table points at itself from slot 3, and the scratch
    // table serves as its own directory.
    let mut pae = PaePages {
        pdpt: PageTable64::new(0x200),
        pt_pml4: PageTable64::new(0x201),
        pt_kernel: PageTable64::new(0x202),
    };
    let mut scratch64 = PageTable64::new(0x203);
    enable_pae(&mut pae, &mut scratch64, 0x20_0000, 8);
    assert_eq!(pae.pdpt.entries[3].0 & 0xF_FFFF_F000, 0x200 << 12);
    assert_eq!(pae.pdpt.entries[0].0 & 0xF_FFFF_F000, 0x203 << 12);
    assert_eq!(pae.pdpt.entries[4].0 & 0xF_FFFF_F000, 0x201 << 12);
    assert_eq!(pae.pdpt.entries[5].0 & 0xF_FFFF_F000, 0x202 << 12);
    assert_eq!(scratch64.entries[0].0 & 0xF_FFFF_F000, 0x203 << 12);
    assert_eq!(pae.pt_kernel.entries[256].0, (0x200 << 12) | 0x3);
}

#[test]
fn trap_routing_by_vector() {
    assert_eq!(isr_route(0), (TrapRoute::Fatal, true));
    // The non-maskable interrupt and the double fault keep interrupts off.
    assert_eq!(isr_route(2), (TrapRoute::Nmi, false));
    assert_eq!(isr_route(8), (TrapRoute::Fatal, false));
    assert_eq!(isr_route(3), (TrapRoute::Breakpoint, true));
    assert_eq!(isr_route(14), (TrapRoute::PageFault, true));
    assert_eq!(isr_route(32), (TrapRoute::Irq, true));
    assert_eq!(isr_route(47), (TrapRoute::Irq, true));
    assert_eq!(isr_route(48), (TrapRoute::Syscall, true));
    assert_eq!(isr_route(19), (TrapRoute::Fatal, true));
    assert_eq!(isr_route(99), (TrapRoute::Fatal, true));
}

#[test]
fn page_fault_trap_delivers_segv() {
    let mut k = small_kernel();
    // A demand fault in user space is fixed and execution continues.
    let r = handle_page_fault(&mut k, 0x0010_0000, 4, 42);
    assert_eq!(r, FaultDisposition::Continue);
    // Run a user process in slot 1 so the violation has a victim.
    let child = k.threads.create_thread(Some(0), 0, true, 1).unwrap();
    k.threads.init_process_thread(child, 0x4000, 0xBFFF_0000);
    let (_, _) = k.threads.exit_to_thread(child);
    // Its touch of kernel space is a SEGV: the thread dies and the idle
    // thread is picked up again.
    let r = handle_page_fault(&mut k, 0xC0B0_0000, 4, 42);
    match r {
        FaultDisposition::Resume(_, _) => {},
        _ => panic!("the dead thread's successor must be resumed"),
    }
    assert_eq!(k.threads.threads[child].state, ThreadState::Unused);
    // A kernel fault at the same address is fatal.
    assert_eq!(handle_page_fault(&mut k, 0xC0B0_0000, 0, 42), FaultDisposition::Panic);
}
