//! Symbol lookup for stack traces: an owned copy of an ELF image whose
//! symbol table resolves addresses to names, demangled for display.

use vstd::prelude::*;

verus! {

use crate::elf::{SymbolTable, best_sym, get_str_spec, STT_FUNC};

/// What `rustc_demangle` prints for a symbol name.  The demangling is a
/// function of the name bytes alone.
pub uninterp spec fn demangled_of(s: Seq<u8>) -> Seq<char>;

/// Relies on `rustc_demangle::demangle`, whose display form depends only on
/// the input symbol name; a name that is not UTF-8 demangles as the empty
/// name does.
#[verifier::external_body]
fn demangle_bytes(name: &[u8]) -> (r: String)
    ensures
        r@ == demangled_of(name@),
{
    match core::str::from_utf8(name) {
        Ok(s) => rustc_demangle::demangle(s).to_string(),
        Err(_) => rustc_demangle::demangle("").to_string(),
    }
}

/// Addresses at or above this belong to the kernel's own symbols.
pub const SYMBOL_KERNEL_BASE: u32 = 0xC000_0000;

/// How many of the first `n` symbols are functions.
pub open spec fn count_funcs(syms: Seq<crate::elf::Sym32>, n: int) -> int
    decreases n,
{
    if n <= 0 {
        0
    } else {
        count_funcs(syms, n - 1) + if syms[n - 1].info & 0xf == STT_FUNC {
            1int
        } else {
            0int
        }
    }
}

/// An ELF image kept alive for its symbols.
pub struct SymbolData {
    pub elf_data: Vec<u8>,
    pub table: SymbolTable,
}

impl SymbolData {
    /// Keep an image whose symbols parse; reject one without a usable
    /// symbol table.
    pub fn new(elf_data: Vec<u8>) -> (r: Option<SymbolData>)
        ensures
            match r {
                Some(d) => d.elf_data@ == elf_data@,
                None => true,
            },
    {
        let parsed = SymbolTable::parse(elf_data.as_slice());
        match parsed {
            Some(table) => Some(SymbolData { elf_data, table }),
            None => None,
        }
    }

    /// The symbol containing an address: its raw name bytes and the offset
    /// into it, or an empty name.
    pub fn lookup(&self, addr: u32) -> (r: (Vec<u8>, u32))
        ensures
            ({
                let (best, pick) = best_sym(
                    self.table.symbols@,
                    addr,
                    self.table.symbols@.len() as int,
                );
                match pick {
                    Some(i) => r.0@ == get_str_spec(
                        self.table.strtab@,
                        self.table.symbols@[i].name as int,
                    ) && r.1 == addr - self.table.symbols@[i].value,
                    None => r.0@ == Seq::<u8>::empty() && r.1 == 0,
                }
            }),
    {
        self.table.lookup(addr)
    }

    /// The symbol containing an address, demangled for display; `None` when
    /// no symbol matches or its name is empty.
    pub fn lookup_demangled(&self, addr: u32) -> (r: Option<(String, u32)>)
        ensures
            ({
                let (best, pick) = best_sym(
                    self.table.symbols@,
                    addr,
                    self.table.symbols@.len() as int,
                );
                match pick {
                    Some(i) => {
                        let name = get_str_spec(
                            self.table.strtab@,
                            self.table.symbols@[i].name as int,
                        );
                        if name.len() == 0 {
                            r is None
                        } else {
                            match r {
                                Some(out) => out.0@ == demangled_of(name) && out.1 == addr
                                    - self.table.symbols@[i].value,
                                None => false,
                            }
                        }
                    },
                    None => r is None,
                }
            }),
    {
        let (name, offset) = self.table.lookup(addr);
        if name.len() == 0 {
            return None;
        }
        let pretty = demangle_bytes(name.as_slice());
        Some((pretty, offset))
    }

    /// Total symbols and function symbols.
    pub fn symbol_count(&self) -> (r: (usize, usize))
        ensures
            r.0 == self.table.symbols@.len(),
            r.1 == count_funcs(self.table.symbols@, self.table.symbols@.len() as int),
    {
        let total = self.table.symbols.len();
        let mut funcs: usize = 0;
        let mut i: usize = 0;
        while i < total
            invariant
                total == self.table.symbols@.len(),
                i <= total,
                funcs == count_funcs(self.table.symbols@, i as int),
                funcs <= i,
            decreases total - i,
        {
            let s = self.table.symbols[i];
            if s.info & 0xf == STT_FUNC {
                funcs = funcs + 1;
            }
            i = i + 1;
        }
        (total, funcs)
    }
}

/// Route an address to the right symbol table: kernel addresses use the
/// kernel's symbols, user addresses the current thread's; a missing table or
/// a miss gives the empty name.
pub fn lookup_symbol(
    kernel_syms: &Option<SymbolData>,
    user_syms: &Option<SymbolData>,
    addr: u32,
) -> (r: (Vec<u8>, u32))
    ensures
        ({
            let table = if addr >= SYMBOL_KERNEL_BASE {
                kernel_syms
            } else {
                user_syms
            };
            match table {
                None => r.0@ == Seq::<u8>::empty() && r.1 == 0,
                Some(d) => match best_sym(d.table.symbols@, addr, d.table.symbols@.len() as int).1 {
                    Some(i) => r.0@ == get_str_spec(d.table.strtab@, d.table.symbols@[i].name as int)
                        && r.1 == addr - d.table.symbols@[i].value,
                    None => r.0@ == Seq::<u8>::empty() && r.1 == 0,
                },
            }
        }),
{
    let table = if addr >= SYMBOL_KERNEL_BASE {
        kernel_syms
    } else {
        user_syms
    };
    match table {
        Some(data) => data.lookup(addr),
        None => (Vec::new(), 0),
    }
}

} // verus!
