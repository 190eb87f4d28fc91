//! The 8259 interrupt controllers, the timer, and IRQ dispatch.
//!
//! The controller chips live behind I/O ports; what is verified here is
//! everything the kernel decides: the exact initialisation words, the PIT
//! divisor, which line a registration touches, and the dispatch policy —
//! cascade ordering, the spurious-interrupt check, masking around the
//! handler, and the tick count.

use vstd::prelude::*;

verus! {

/// IRQ 0 arrives at this interrupt vector.
pub const IRQ_OFFSET: u8 = 32;

/// Command port of the master 8259.
pub const MASTER_CMD: u16 = 0x20;

/// Data port of the master 8259.
pub const MASTER_DATA: u16 = 0x21;

/// Command port of the slave 8259.
pub const SLAVE_CMD: u16 = 0xA0;

/// Data port of the slave 8259.
pub const SLAVE_DATA: u16 = 0xA1;

/// End-of-interrupt command.
pub const EOI: u8 = 0x20;

/// Base frequency of the programmable interval timer.
pub const PIT_FREQUENCY: u32 = 1193182;

/// The words one 8259 is programmed with: initialise with ICW4, the vector
/// offset, the cascade wiring, 8086 mode, read-ISR mode, and the initial
/// mask.
pub struct PicInit {
    pub icw1: u8,
    pub icw2: u8,
    pub icw3: u8,
    pub icw4: u8,
    pub ocw3: u8,
    pub mask: u8,
}

/// Program one chip: everything masked but, on the master, the cascade line.
pub fn init_pic(is_master: bool, offset: u8, cascade: u8) -> (r: PicInit)
    ensures
        r.icw1 == 0x11,
        r.icw2 == offset,
        r.icw3 == cascade,
        r.icw4 == 0x01,
        r.ocw3 == 0x0B,
        r.mask == (if is_master {
            !cascade
        } else {
            0xFFu8
        }),
{
    PicInit {
        icw1: 0x11,
        icw2: offset,
        icw3: cascade,
        icw4: 0x01,
        ocw3: 0x0B,
        mask: if is_master {
            !cascade
        } else {
            0xFF
        },
    }
}

/// Remap both chips: IRQs 0 to 7 onto vectors 32 to 39 with the slave
/// cascaded on line 2, IRQs 8 to 15 onto vectors 40 to 47.
pub fn remap_pic() -> (r: (PicInit, PicInit))
    ensures
        r.0.icw1 == 0x11,
        r.0.icw2 == IRQ_OFFSET,
        r.0.icw3 == 4,
        r.0.icw4 == 0x01,
        r.0.mask == !4u8,
        r.1.icw1 == 0x11,
        r.1.icw2 == IRQ_OFFSET + 8,
        r.1.icw3 == 2,
        r.1.icw4 == 0x01,
        r.1.mask == 0xFF,
{
    proof {
        assert(1u8 << 2 == 4) by (bit_vector);
    }
    let master = init_pic(true, IRQ_OFFSET, 1 << 2);
    let slave = init_pic(false, IRQ_OFFSET + 8, 2);
    (master, slave)
}

/// The divisor as a specification value.
pub open spec fn pit_divisor_spec(frequency: u32) -> u16 {
    if frequency == 0 {
        0u16
    } else if (PIT_FREQUENCY as int / frequency as int) < 1 {
        1u16
    } else if (PIT_FREQUENCY as int / frequency as int) > 65535 {
        65535u16
    } else {
        (PIT_FREQUENCY as int / frequency as int) as u16
    }
}

/// The PIT divisor for a requested frequency: zero stands for the maximum
/// divisor, anything else is clamped into the counter's range.
pub fn pit_divisor(frequency: u32) -> (r: u16)
    ensures
        r == pit_divisor_spec(frequency),
{
    if frequency == 0 {
        return 0;
    }
    let d = PIT_FREQUENCY / frequency;
    if d < 1 {
        1
    } else if d > 65535 {
        65535
    } else {
        d as u16
    }
}

/// The three bytes that program channel 0: square-wave mode with low/high
/// access, then the divisor low byte, then its high byte.
pub fn init_pit(frequency: u32) -> (r: (u8, u8, u8))
    ensures
        r.0 == 0x36,
        ({
            let d = pit_divisor_spec(frequency);
            r.1 == (d & 0xFF) as u8 && r.2 == (d >> 8) as u8
        }),
{
    let divisor = pit_divisor(frequency);
    proof {
        assert(divisor == pit_divisor_spec(frequency));
    }
    (0x36, (divisor & 0xFF) as u8, (divisor >> 8) as u8)
}

/// What dispatch decides for one IRQ.
#[derive(Clone, Copy, PartialEq, Eq, Structural, Debug)]
pub enum IrqAction {
    /// A phantom interrupt on line 7 or 15: nothing is acknowledged — in
    /// particular, no end-of-interrupt goes out — and nothing changes.
    Spurious,
    /// The line was serviced and acknowledged; the slave's interrupts
    /// acknowledge the master first, and the line's handler ran if one was
    /// registered.
    Handled { irq: u8, eoi_master_first: bool, ran_handler: bool },
}

/// The IRQ subsystem's state: which lines have handlers, the two mask
/// registers, the timer tick count, and the last scancode the keyboard
/// handler consumed.
pub struct IrqController {
    pub handlers: Vec<bool>,
    pub master_mask: u8,
    pub slave_mask: u8,
    pub ticks: u64,
    pub last_scancode: u8,
}

impl IrqController {
    pub open spec fn wf(self) -> bool {
        self.handlers@.len() == 16
    }

    /// The state after remapping: no handlers, everything masked but the
    /// cascade.
    pub fn init_interrupts() -> (r: IrqController)
        ensures
            r.wf(),
            forall|i: int| 0 <= i < 16 ==> r.handlers@[i] == false,
            r.master_mask == !4u8,
            r.slave_mask == 0xFF,
            r.ticks == 0,
    {
        let mut handlers: Vec<bool> = Vec::new();
        let mut i: usize = 0;
        while i < 16
            invariant
                i == handlers@.len() <= 16,
                forall|j: int| 0 <= j < i ==> handlers@[j] == false,
            decreases 16 - i,
        {
            handlers.push(false);
            i = i + 1;
        }
        IrqController {
            handlers,
            master_mask: !4u8,
            slave_mask: 0xFF,
            ticks: 0,
            last_scancode: 0,
        }
    }

    /// Register a handler and unmask its line: refused for a line out of
    /// range or one already unmasked.
    pub fn register_irq(&mut self, irq: u8) -> (r: bool)
        requires
            old(self).wf(),
        ensures
            final(self).wf(),
            final(self).ticks == old(self).ticks,
            final(self).last_scancode == old(self).last_scancode,
            ({
                if irq >= 16 {
                    &&& r == false
                    &&& final(self).handlers@ == old(self).handlers@
                    &&& final(self).master_mask == old(self).master_mask
                    &&& final(self).slave_mask == old(self).slave_mask
                } else {
                    let mask = if irq < 8 {
                        old(self).master_mask
                    } else {
                        old(self).slave_mask
                    };
                    let bit = (1u8 << (irq % 8) as u8) as u8;
                    if mask & bit == 0 {
                        &&& r == false
                        &&& final(self).handlers@ == old(self).handlers@
                        &&& final(self).master_mask == old(self).master_mask
                        &&& final(self).slave_mask == old(self).slave_mask
                    } else {
                        &&& r == true
                        &&& final(self).handlers@ == old(self).handlers@.update(irq as int, true)
                        &&& (if irq < 8 {
                            final(self).master_mask == (mask & !bit) as u8 && final(self).slave_mask == old(self).slave_mask
                        } else {
                            final(self).slave_mask == (mask & !bit) as u8 && final(self).master_mask == old(self).master_mask
                        })
                    }
                }
            }),
    {
        if irq >= 16 {
            return false;
        }
        let bit: u8 = 1u8 << (irq % 8);
        if irq < 8 {
            let mask = self.master_mask;
            if mask & bit == 0 {
                return false;
            }
            self.master_mask = mask & !bit;
        } else {
            let mask = self.slave_mask;
            if mask & bit == 0 {
                return false;
            }
            self.slave_mask = mask & !bit;
        }
        self.handlers.set(irq as usize, true);
        true
    }

    /// The timer handler: one more tick.
    pub fn timer_handler(&mut self)
        ensures
            final(self).ticks == u64_wrap_inc(old(self).ticks),
            final(self).handlers@ == old(self).handlers@,
            final(self).master_mask == old(self).master_mask,
            final(self).slave_mask == old(self).slave_mask,
            final(self).last_scancode == old(self).last_scancode,
    {
        self.ticks = self.ticks.wrapping_add(1);
    }

    /// The keyboard handler: consume the scancode.
    pub fn keyboard_handler(&mut self, scancode: u8)
        ensures
            final(self).ticks == old(self).ticks,
            final(self).handlers@ == old(self).handlers@,
            final(self).master_mask == old(self).master_mask,
            final(self).slave_mask == old(self).slave_mask,
            final(self).last_scancode == scancode,
    {
        self.last_scancode = scancode;
    }

    /// Dispatch one hardware interrupt.  The caller supplies the in-service
    /// register it read from the chip and, for the keyboard, the scancode.
    /// A phantom interrupt on line 7 or 15 whose in-service bit is clear is
    /// ignored without acknowledgement; otherwise the line is temporarily
    /// masked, acknowledged — master first for a slave line — and its
    /// handler runs.
    pub fn handle_irq(&mut self, int_num: u32, in_service: u8, scancode: u8) -> (r: IrqAction)
        requires
            old(self).wf(),
            32 <= int_num < 48,
        ensures
            final(self).wf(),
            final(self).handlers@ == old(self).handlers@,
            final(self).master_mask == old(self).master_mask,
            final(self).slave_mask == old(self).slave_mask,
            ({
                let irq = (int_num - 32) as u8;
                let spurious = (irq == 7 || irq == 15) && in_service & 0x80 == 0;
                if spurious {
                    &&& r == IrqAction::Spurious
                    &&& final(self).ticks == old(self).ticks
                    &&& final(self).last_scancode == old(self).last_scancode
                } else {
                    let ran = old(self).handlers@[irq as int];
                    &&& r == (IrqAction::Handled { irq, eoi_master_first: irq >= 8, ran_handler: ran })
                    &&& final(self).ticks == (if irq == 0 && ran {
                        u64_wrap_inc(old(self).ticks)
                    } else {
                        old(self).ticks
                    })
                    &&& final(self).last_scancode == (if irq == 1 && ran {
                        scancode
                    } else {
                        old(self).last_scancode
                    })
                }
            }),
    {
        let irq: u8 = (int_num - 32) as u8;
        let bit: u8 = 1u8 << (irq % 8);
        proof {
            let i = irq;
            assert((1u8 << (i % 8)) == 0x80 <==> (i % 8 == 7)) by (bit_vector);
            assert(i < 16 ==> ((i % 8 == 7) <==> (i == 7 || i == 15))) by (bit_vector);
        }
        if bit == 0x80 {
            if in_service & bit == 0 {
                return IrqAction::Spurious;
            }
        }
        let eoi_master_first = irq >= 8;
        let ran = self.handlers[irq as usize];
        if ran {
            if irq == 0 {
                self.ticks = self.ticks.wrapping_add(1);
            } else if irq == 1 {
                self.last_scancode = scancode;
            }
        }
        IrqAction::Handled { irq, eoi_master_first, ran_handler: ran }
    }

    /// The tick count.
    pub fn get_ticks(&self) -> (r: u64)
        ensures
            r == self.ticks,
    {
        self.ticks
    }
}

/// A 64-bit count, one higher with wrap-around.
pub open spec fn u64_wrap_inc(x: u64) -> u64 {
    vstd::wrapping::u64_specs::wrapping_add(x, 1)
}

} // verus!
