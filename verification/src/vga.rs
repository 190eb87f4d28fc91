//! VGA text console: an 80×25 cell buffer with a cursor, a colour attribute,
//! and a minimal ANSI SGR escape parser.  The cell buffer models the text
//! memory at physical 0xB8000; the `debug` sequence models the bytes mirrored
//! to the QEMU debug port.

use vstd::prelude::*;

verus! {

/// Columns of the text screen.
pub const VGA_WIDTH: usize = 80;

/// Rows of the text screen.
pub const VGA_HEIGHT: usize = 25;

/// Cells of the text screen.
pub const VGA_SIZE: usize = 2000;

/// ANSI escape parser state.
#[derive(Clone, Copy, PartialEq, Eq, Structural, Debug)]
pub enum EscState {
    Normal,
    Escape,
    Csi,
}

/// The console's whole state, as specifications see it.
pub ghost struct VgaState {
    pub cells: Seq<u16>,
    pub x: int,
    pub y: int,
    pub attr: u8,
    pub esc: EscState,
    pub param: u8,
    pub enabled: bool,
    pub debug: Seq<u8>,
}

/// The console.
pub struct Vga {
    buffer: Vec<u16>,
    cursor_x: usize,
    cursor_y: usize,
    attr: u8,
    esc_state: EscState,
    esc_param: u8,
    pub screen_enabled: bool,
    debug_out: Vec<u8>,
}

impl View for Vga {
    type V = VgaState;

    closed spec fn view(&self) -> VgaState {
        VgaState {
            cells: self.buffer@,
            x: self.cursor_x as int,
            y: self.cursor_y as int,
            attr: self.attr,
            esc: self.esc_state,
            param: self.esc_param,
            enabled: self.screen_enabled,
            debug: self.debug_out@,
        }
    }
}

/// A blank cell in the given attribute.
pub open spec fn blank_cell(attr: u8) -> u16 {
    ((attr as u16) << 8) | 0x20
}

/// The ANSI-to-VGA colour map: ANSI orders black, red, green, yellow, blue,
/// magenta, cyan, white; VGA orders black, blue, green, cyan, red, magenta,
/// brown, light grey.
pub open spec fn ansi_colour(code: u8, bright: bool) -> u8 {
    let base: u8 = if code % 8 == 0 {
        0
    } else if code % 8 == 1 {
        4
    } else if code % 8 == 2 {
        2
    } else if code % 8 == 3 {
        6
    } else if code % 8 == 4 {
        1
    } else if code % 8 == 5 {
        5
    } else if code % 8 == 6 {
        3
    } else {
        7
    };
    if bright {
        (base + 8) as u8
    } else {
        base
    }
}

/// What one SGR code does to the attribute byte.
pub open spec fn sgr_attr(attr: u8, code: u8) -> u8 {
    if code == 0 {
        0x07
    } else if 30 <= code <= 37 {
        (attr & 0xF0) | ansi_colour((code - 30) as u8, false)
    } else if 40 <= code <= 47 {
        (attr & 0x0F) | ((ansi_colour((code - 40) as u8, false) as u8) << 4) as u8
    } else if 90 <= code <= 97 {
        (attr & 0xF0) | ansi_colour((code - 90) as u8, true)
    } else if 100 <= code <= 107 {
        (attr & 0x0F) | ((ansi_colour((code - 100) as u8, true) as u8) << 4) as u8
    } else {
        attr
    }
}

/// The screen scrolled up one row, with a fresh blank bottom row.
pub open spec fn scrolled(cells: Seq<u16>, attr: u8) -> Seq<u16> {
    Seq::new(
        VGA_SIZE as nat,
        |i: int| if i < VGA_SIZE - VGA_WIDTH {
            cells[i + VGA_WIDTH]
        } else {
            blank_cell(attr)
        },
    )
}

/// Saturating accumulation of a decimal digit into the escape parameter.
pub open spec fn sgr_accum(param: u8, digit: u8) -> u8 {
    if param * 10 + digit > 255 {
        255u8
    } else {
        (param * 10 + digit) as u8
    }
}

/// One byte through the console.  Every byte is mirrored to the debug port;
/// with the screen enabled, escape sequences drive the parser and ordinary
/// bytes move the cursor and write cells, scrolling at the bottom row.
pub open spec fn vga_putchar_spec(s: VgaState, c: u8) -> VgaState {
    let s = VgaState { debug: s.debug.push(c), ..s };
    if !s.enabled {
        s
    } else if s.esc == EscState::Escape {
        if c == 0x5b {
            VgaState { esc: EscState::Csi, param: 0, ..s }
        } else {
            VgaState { esc: EscState::Normal, ..s }
        }
    } else if s.esc == EscState::Csi {
        if 0x30 <= c <= 0x39 {
            VgaState { param: sgr_accum(s.param, (c - 0x30) as u8), ..s }
        } else if c == 0x6d {
            VgaState { attr: sgr_attr(s.attr, s.param), esc: EscState::Normal, ..s }
        } else {
            VgaState { esc: EscState::Normal, ..s }
        }
    } else {
        let moved = if c == 0x1b {
            VgaState { esc: EscState::Escape, ..s }
        } else if c == 0x0a {
            VgaState { x: 0, y: s.y + 1, ..s }
        } else if c == 0x0d {
            VgaState { x: 0, ..s }
        } else {
            let written = VgaState {
                cells: s.cells.update(s.y * 80 + s.x, (((s.attr as u16) << 8) | (c as u16)) as u16),
                ..s
            };
            if s.x + 1 >= VGA_WIDTH {
                VgaState { x: 0, y: s.y + 1, ..written }
            } else {
                VgaState { x: s.x + 1, ..written }
            }
        };
        if moved.y >= VGA_HEIGHT {
            VgaState { cells: scrolled(moved.cells, moved.attr), y: VGA_HEIGHT - 1, ..moved }
        } else {
            moved
        }
    }
}

/// A sequence of bytes through the console.
pub open spec fn vga_write_spec(s: VgaState, bytes: Seq<u8>, n: int) -> VgaState
    decreases n,
{
    if n <= 0 {
        s
    } else {
        vga_putchar_spec(vga_write_spec(s, bytes, n - 1), bytes[n - 1])
    }
}

impl Vga {
    /// The buffer covers the screen and the cursor is on it.
    pub open spec fn wf(self) -> bool {
        self@.cells.len() == VGA_SIZE && 0 <= self@.x < VGA_WIDTH && 0 <= self@.y < VGA_HEIGHT
    }

    /// A console showing a cleared screen in light grey on black.
    pub fn new() -> (r: Vga)
        ensures
            r.wf(),
            r@.x == 0,
            r@.y == 0,
            r@.attr == 0x07,
            r@.esc == EscState::Normal,
            r@.param == 0,
            r@.enabled,
            r@.debug == Seq::<u8>::empty(),
            forall|i: int| 0 <= i < VGA_SIZE ==> r@.cells[i] == blank_cell(0x07),
    {
        let mut buffer: Vec<u16> = Vec::new();
        let mut i: usize = 0;
        while i < VGA_SIZE
            invariant
                i == buffer@.len() <= VGA_SIZE,
                forall|j: int| 0 <= j < i ==> buffer@[j] == blank_cell(0x07),
            decreases VGA_SIZE - i,
        {
            proof {
                assert(((0x07u16 as u16) << 8) | 0x20 == 0x0720) by (bit_vector);
            }
            buffer.push(0x0720);
            i = i + 1;
        }
        Vga {
            buffer,
            cursor_x: 0,
            cursor_y: 0,
            attr: 0x07,
            esc_state: EscState::Normal,
            esc_param: 0,
            screen_enabled: true,
            debug_out: Vec::new(),
        }
    }

    /// Convert an ANSI colour code to a VGA colour.
    pub fn ansi_to_vga(code: u8, bright: bool) -> (r: u8)
        ensures
            r == ansi_colour(code, bright),
    {
        let base: u8 = match code % 8 {
            0 => 0,
            1 => 4,
            2 => 2,
            3 => 6,
            4 => 1,
            5 => 5,
            6 => 3,
            _ => 7,
        };
        if bright {
            base + 8
        } else {
            base
        }
    }

    /// Apply one SGR code to the attribute byte.
    pub fn handle_sgr(&mut self, code: u8)
        ensures
            final(self)@ == (VgaState { attr: sgr_attr(old(self)@.attr, code), ..old(self)@ }),
            old(self).wf() ==> final(self).wf(),
    {
        if code == 0 {
            self.attr = 0x07;
        } else if 30 <= code && code <= 37 {
            self.attr = (self.attr & 0xF0) | Self::ansi_to_vga(code - 30, false);
        } else if 40 <= code && code <= 47 {
            self.attr = (self.attr & 0x0F) | (Self::ansi_to_vga(code - 40, false) << 4);
        } else if 90 <= code && code <= 97 {
            self.attr = (self.attr & 0xF0) | Self::ansi_to_vga(code - 90, true);
        } else if 100 <= code && code <= 107 {
            self.attr = (self.attr & 0x0F) | (Self::ansi_to_vga(code - 100, true) << 4);
        }
    }

    /// Blank the whole screen and home the cursor.
    pub fn clear(&mut self)
        requires
            old(self).wf(),
        ensures
            final(self).wf(),
            final(self)@.x == 0,
            final(self)@.y == 0,
            final(self)@.attr == old(self)@.attr,
            final(self)@.esc == old(self)@.esc,
            final(self)@.param == old(self)@.param,
            final(self)@.enabled == old(self)@.enabled,
            final(self)@.debug == old(self)@.debug,
            forall|i: int|
                0 <= i < VGA_SIZE ==> final(self)@.cells[i] == blank_cell(old(self)@.attr),
    {
        let blank: u16 = ((self.attr as u16) << 8) | 0x20;
        let mut i: usize = 0;
        while i < VGA_SIZE
            invariant
                self.buffer@.len() == VGA_SIZE,
                self.attr == old(self).attr,
                self.cursor_x == old(self).cursor_x,
                self.cursor_y == old(self).cursor_y,
                self.esc_state == old(self).esc_state,
                self.esc_param == old(self).esc_param,
                self.screen_enabled == old(self).screen_enabled,
                self.debug_out@ == old(self).debug_out@,
                old(self).cursor_x < VGA_WIDTH,
                old(self).cursor_y < VGA_HEIGHT,
                blank == blank_cell(old(self).attr),
                i <= VGA_SIZE,
                forall|j: int| 0 <= j < i ==> self.buffer@[j] == blank_cell(old(self).attr),
            decreases VGA_SIZE - i,
        {
            self.buffer.set(i, blank);
            i = i + 1;
        }
        self.cursor_x = 0;
        self.cursor_y = 0;
    }

    /// Move every row up by one and blank the bottom row.
    pub fn scroll(&mut self)
        requires
            old(self)@.cells.len() == VGA_SIZE,
        ensures
            final(self)@.cells.len() == VGA_SIZE,
            final(self)@ == (VgaState {
                cells: scrolled(old(self)@.cells, old(self)@.attr),
                ..old(self)@
            }),
    {
        let blank: u16 = ((self.attr as u16) << 8) | 0x20;
        let mut i: usize = 0;
        while i < VGA_SIZE - VGA_WIDTH
            invariant
                self.buffer@.len() == VGA_SIZE,
                self.attr == old(self).attr,
                self.cursor_x == old(self).cursor_x,
                self.cursor_y == old(self).cursor_y,
                self.esc_state == old(self).esc_state,
                self.esc_param == old(self).esc_param,
                self.screen_enabled == old(self).screen_enabled,
                self.debug_out@ == old(self).debug_out@,
                blank == blank_cell(old(self).attr),
                i <= VGA_SIZE - VGA_WIDTH,
                forall|j: int| 0 <= j < i ==> self.buffer@[j] == old(self).buffer@[j + VGA_WIDTH],
                forall|j: int| i <= j < VGA_SIZE ==> self.buffer@[j] == old(self).buffer@[j],
            decreases VGA_SIZE - VGA_WIDTH - i,
        {
            let moved = self.buffer[i + VGA_WIDTH];
            self.buffer.set(i, moved);
            i = i + 1;
        }
        let mut k: usize = VGA_SIZE - VGA_WIDTH;
        while k < VGA_SIZE
            invariant
                self.buffer@.len() == VGA_SIZE,
                self.attr == old(self).attr,
                self.cursor_x == old(self).cursor_x,
                self.cursor_y == old(self).cursor_y,
                self.esc_state == old(self).esc_state,
                self.esc_param == old(self).esc_param,
                self.screen_enabled == old(self).screen_enabled,
                self.debug_out@ == old(self).debug_out@,
                blank == blank_cell(old(self).attr),
                VGA_SIZE - VGA_WIDTH <= k <= VGA_SIZE,
                forall|j: int|
                    0 <= j < VGA_SIZE - VGA_WIDTH ==> self.buffer@[j] == old(self).buffer@[j
                        + VGA_WIDTH],
                forall|j: int|
                    VGA_SIZE - VGA_WIDTH <= j < k ==> self.buffer@[j] == blank_cell(
                        old(self).attr,
                    ),
            decreases VGA_SIZE - k,
        {
            self.buffer.set(k, blank);
            k = k + 1;
        }
        proof {
            assert(self.buffer@ =~= scrolled(old(self)@.cells, old(self)@.attr));
        }
    }

    /// Put one byte through the console.
    pub fn putchar(&mut self, c: u8)
        requires
            old(self).wf(),
        ensures
            final(self).wf(),
            final(self)@ == vga_putchar_spec(old(self)@, c),
    {
        self.debug_out.push(c);
        if !self.screen_enabled {
            return ;
        }
        match self.esc_state {
            EscState::Escape => {
                if c == 0x5b {
                    self.esc_state = EscState::Csi;
                    self.esc_param = 0;
                } else {
                    self.esc_state = EscState::Normal;
                }
                return ;
            },
            EscState::Csi => {
                if 0x30 <= c && c <= 0x39 {
                    let digit = c - 0x30;
                    let widened: u32 = (self.esc_param as u32) * 10 + (digit as u32);
                    self.esc_param = if widened > 255 {
                        255
                    } else {
                        widened as u8
                    };
                } else if c == 0x6d {
                    let param = self.esc_param;
                    self.handle_sgr(param);
                    self.esc_state = EscState::Normal;
                } else {
                    self.esc_state = EscState::Normal;
                }
                return ;
            },
            EscState::Normal => {},
        }
        if c == 0x1b {
            self.esc_state = EscState::Escape;
        } else if c == 0x0a {
            self.cursor_x = 0;
            self.cursor_y = self.cursor_y + 1;
        } else if c == 0x0d {
            self.cursor_x = 0;
        } else {
            let offset = self.cursor_y * VGA_WIDTH + self.cursor_x;
            let cell: u16 = ((self.attr as u16) << 8) | (c as u16);
            self.buffer.set(offset, cell);
            self.cursor_x = self.cursor_x + 1;
            if self.cursor_x >= VGA_WIDTH {
                self.cursor_x = 0;
                self.cursor_y = self.cursor_y + 1;
            }
        }
        if self.cursor_y >= VGA_HEIGHT {
            self.scroll();
            self.cursor_y = VGA_HEIGHT - 1;
        }
    }

    /// Put a run of bytes through the console in order.
    pub fn write_bytes(&mut self, s: &[u8])
        requires
            old(self).wf(),
        ensures
            final(self).wf(),
            final(self)@ == vga_write_spec(old(self)@, s@, s@.len() as int),
    {
        let mut i: usize = 0;
        while i < s.len()
            invariant
                self.wf(),
                i <= s@.len(),
                self@ == vga_write_spec(old(self)@, s@, i as int),
            decreases s@.len() - i,
        {
            self.putchar(s[i]);
            i = i + 1;
        }
    }

    /// The cell at a screen position.
    pub fn cell_at(&self, x: usize, y: usize) -> (r: u16)
        requires
            self.wf(),
            x < VGA_WIDTH,
            y < VGA_HEIGHT,
        ensures
            r == self@.cells[y * 80 + x],
    {
        self.buffer[y * VGA_WIDTH + x]
    }

    /// Everything mirrored to the debug port so far.
    pub fn debug_bytes(&self) -> (r: &Vec<u8>)
        ensures
            r@ == self@.debug,
    {
        &self.debug_out
    }
}

} // verus!
