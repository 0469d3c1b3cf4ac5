//! The machine state: five 32-bit signed registers and a byte-addressable
//! memory, accessed four bytes at a time in little-endian order.

use vstd::prelude::*;
use vstd::string::StringExecFns;

use crate::Error;
use crate::text::hex_digits_pad4;
use crate::text::push_hex_pad4;

verus! {

/// Five fixed-purpose 32-bit signed registers plus a flat memory buffer.
/// Every memory access moves exactly four little-endian bytes; the byte
/// offset comes from reinterpreting a signed 32-bit address as unsigned.
pub struct State {
    pub r0: i32,
    pub r1: i32,
    pub r2: i32,
    pub r3: i32,
    pub r4: i32,
    pub mem: Vec<u8>,
}

/// The mathematical model of a `State`: register values and memory bytes.
pub ghost struct StateModel {
    pub r0: i32,
    pub r1: i32,
    pub r2: i32,
    pub r3: i32,
    pub r4: i32,
    pub mem: Seq<u8>,
}

impl View for State {
    type V = StateModel;

    open spec fn view(&self) -> StateModel {
        StateModel {
            r0: self.r0,
            r1: self.r1,
            r2: self.r2,
            r3: self.r3,
            r4: self.r4,
            mem: self.mem@,
        }
    }
}

/// A signed 32-bit address reinterpreted as an unsigned byte offset.
pub open spec fn byte_offset(addr: i32) -> int {
    if addr >= 0 {
        addr as int
    } else {
        addr as int + 0x1_0000_0000
    }
}

/// The unsigned 32-bit value carrying the same bit pattern as `v`.
pub open spec fn word_unsigned(v: i32) -> int {
    if v >= 0 {
        v as int
    } else {
        v as int + 0x1_0000_0000
    }
}

/// The signed 32-bit value carrying the same bit pattern as the unsigned
/// value `u` (meaningful for `0 <= u < 2^32`).
pub open spec fn word_signed(u: int) -> int {
    if u < 0x8000_0000 {
        u
    } else {
        u - 0x1_0000_0000
    }
}

/// Whether a four-byte access at `addr` stays inside the memory.
pub open spec fn in_bounds(mem: Seq<u8>, addr: i32) -> bool {
    byte_offset(addr) + 4 <= mem.len()
}

/// The four little-endian bytes of `v`, least significant first.
pub open spec fn word_bytes(v: i32) -> Seq<u8> {
    let u = word_unsigned(v);
    seq![
        (u % 0x100) as u8,
        ((u / 0x100) % 0x100) as u8,
        ((u / 0x1_0000) % 0x100) as u8,
        ((u / 0x100_0000) % 0x100) as u8,
    ]
}

/// `mem` with the four little-endian bytes of `v` written at `addr`.
pub open spec fn stored(mem: Seq<u8>, addr: i32, v: i32) -> Seq<u8> {
    let off = byte_offset(addr);
    let b = word_bytes(v);
    mem.update(off, b[0]).update(off + 1, b[1]).update(off + 2, b[2]).update(off + 3, b[3])
}

/// The signed word held in the four little-endian bytes at `addr`.
pub open spec fn word_at(mem: Seq<u8>, addr: i32) -> i32 {
    let off = byte_offset(addr);
    let u = mem[off] + 0x100 * mem[off + 1] + 0x1_0000 * mem[off + 2]
        + 0x100_0000 * mem[off + 3];
    word_signed(u) as i32
}

impl State {
    /// The executable form of `byte_offset`.
    fn offset_of(addr: i32) -> (off: usize)
        ensures
            off == byte_offset(addr),
    {
        if addr >= 0 {
            addr as usize
        } else {
            (addr as i64 + 0x1_0000_0000) as usize
        }
    }

    /// Writes the four little-endian bytes of `src` at the unsigned
    /// reinterpretation of `dest`, or reports `OutOfBounds` (leaving the
    /// state untouched) when the four bytes would not fit.
    pub fn store(&mut self, dest: i32, src: i32) -> (r: Result<(), Error>)
        ensures
            in_bounds(old(self)@.mem, dest) ==> r is Ok && final(self)@ == (StateModel {
                mem: stored(old(self)@.mem, dest, src),
                ..old(self)@
            }),
            !in_bounds(old(self)@.mem, dest) ==> r == Err::<(), Error>(Error::OutOfBounds)
                && final(self)@ == old(self)@,
    {
        let off = Self::offset_of(dest);
        if off < self.mem.len() && 4 <= self.mem.len() - off {
            let u: u64 = if src >= 0 {
                src as u64
            } else {
                (src as i64 + 0x1_0000_0000) as u64
            };
            self.mem[off] = (u % 0x100) as u8;
            self.mem[off + 1] = ((u / 0x100) % 0x100) as u8;
            self.mem[off + 2] = ((u / 0x1_0000) % 0x100) as u8;
            self.mem[off + 3] = ((u / 0x100_0000) % 0x100) as u8;
            Ok(())
        } else {
            Err(Error::OutOfBounds)
        }
    }

    /// Reads the four little-endian bytes at the unsigned reinterpretation
    /// of `src` as a signed word, or reports `OutOfBounds`.
    pub fn read(&self, src: i32) -> (r: Result<i32, Error>)
        ensures
            in_bounds(self@.mem, src) ==> r == Ok::<i32, Error>(word_at(self@.mem, src)),
            !in_bounds(self@.mem, src) ==> r == Err::<i32, Error>(Error::OutOfBounds),
    {
        let off = Self::offset_of(src);
        if off < self.mem.len() && 4 <= self.mem.len() - off {
            let u: u64 = self.mem[off] as u64 + 0x100 * (self.mem[off + 1] as u64) + 0x1_0000
                * (self.mem[off + 2] as u64) + 0x100_0000 * (self.mem[off + 3] as u64);
            if u < 0x8000_0000 {
                Ok(u as i32)
            } else {
                Ok((u as i64 - 0x1_0000_0000) as i32)
            }
        } else {
            Err(Error::OutOfBounds)
        }
    }
}

/// The register of `m` with index `i` (meaningful for `0 <= i < 5`).
pub open spec fn reg(m: StateModel, i: int) -> i32 {
    if i == 0 {
        m.r0
    } else if i == 1 {
        m.r1
    } else if i == 2 {
        m.r2
    } else if i == 3 {
        m.r3
    } else {
        m.r4
    }
}

/// `m` with register `i` set to `v` (meaningful for `0 <= i < 5`).
pub open spec fn with_reg(m: StateModel, i: int, v: i32) -> StateModel {
    if i == 0 {
        StateModel { r0: v, ..m }
    } else if i == 1 {
        StateModel { r1: v, ..m }
    } else if i == 2 {
        StateModel { r2: v, ..m }
    } else if i == 3 {
        StateModel { r3: v, ..m }
    } else {
        StateModel { r4: v, ..m }
    }
}

/// The signed 32-bit value carrying the same bit pattern as `u`.
pub open spec fn as_signed(u: u32) -> i32 {
    if u < 0x8000_0000 {
        u as i32
    } else {
        (u - 0x1_0000_0000) as i32
    }
}

impl State {
    /// The value of the register with index `i`.
    pub fn get_reg(&self, i: u32) -> (v: i32)
        requires
            i < 5,
        ensures
            v == reg(self@, i as int),
    {
        if i == 0 {
            self.r0
        } else if i == 1 {
            self.r1
        } else if i == 2 {
            self.r2
        } else if i == 3 {
            self.r3
        } else {
            self.r4
        }
    }

    /// Replaces the value of the register with index `i`.
    pub fn set_reg(&mut self, i: u32, v: i32)
        requires
            i < 5,
        ensures
            final(self)@ == with_reg(old(self)@, i as int, v),
    {
        if i == 0 {
            self.r0 = v;
        } else if i == 1 {
            self.r1 = v;
        } else if i == 2 {
            self.r2 = v;
        } else if i == 3 {
            self.r3 = v;
        } else {
            self.r4 = v;
        }
    }
}

impl State {
    /// `store` for a caller who has already shown the address in bounds;
    /// the write therefore cannot fail.
    pub fn store_at(&mut self, dest: i32, src: i32)
        requires
            in_bounds(old(self)@.mem, dest),
        ensures
            final(self)@ == (StateModel { mem: stored(old(self)@.mem, dest, src), ..old(self)@ }),
    {
        let _ = self.store(dest, src);
    }

    /// `read` for a caller who has already shown the address in bounds;
    /// the read therefore cannot fail.
    pub fn read_at(&self, src: i32) -> (r: i32)
        requires
            in_bounds(self@.mem, src),
        ensures
            r == word_at(self@.mem, src),
    {
        match self.read(src) {
            Ok(v) => v,
            Err(_) => 0,
        }
    }
}

/// The executable form of `as_signed`.
pub fn signed_of(u: u32) -> (v: i32)
    ensures
        v == as_signed(u),
{
    if u < 0x8000_0000 {
        u as i32
    } else {
        ((u as i64) - 0x1_0000_0000) as i32
    }
}

/// The annotation of a memory address: which of the conventional regions
/// of the target program it falls in, or the empty text.
pub open spec fn annotation(index: i32) -> Seq<char> {
    if 0x1000 <= index <= 0x1100 {
        "[user input]"@
    } else if 0x1190 <= index <= 0x1290 {
        "[first pass]"@
    } else if 0x1300 <= index <= 0x1400 {
        "[RNG numbers]"@
    } else if 0x1800 <= index <= 0x1900 {
        "[flag output]"@
    } else {
        ""@
    }
}

/// The diagnostic label for a memory address, per `annotation`; purely
/// informational, never part of any result.
pub fn log_index(index: i32) -> (r: &'static str)
    ensures
        r@ == annotation(index),
{
    if 0x1000 <= index && index <= 0x1100 {
        "[user input]"
    } else if 0x1190 <= index && index <= 0x1290 {
        "[first pass]"
    } else if 0x1300 <= index && index <= 0x1400 {
        "[RNG numbers]"
    } else if 0x1800 <= index && index <= 0x1900 {
        "[flag output]"
    } else {
        ""
    }
}

/// The register dump: the five registers as four-or-more lower-case hex
/// digits each (two's complement for negatives), separated by spaces.
pub open spec fn regs_text(m: StateModel) -> Seq<char> {
    hex_digits_pad4(word_unsigned(m.r0)) + " "@ + hex_digits_pad4(word_unsigned(m.r1)) + " "@
        + hex_digits_pad4(word_unsigned(m.r2)) + " "@ + hex_digits_pad4(word_unsigned(m.r3))
        + " "@ + hex_digits_pad4(word_unsigned(m.r4))
}

/// The executable form of `word_unsigned`.
pub fn unsigned_of(v: i32) -> (u: u32)
    ensures
        u == word_unsigned(v),
{
    if v >= 0 {
        v as u32
    } else {
        ((v as i64) + 0x1_0000_0000) as u32
    }
}

impl State {
    /// The register dump of this state, per `regs_text`.
    pub fn print_regs(&self) -> (r: String)
        ensures
            r@ == regs_text(self@),
    {
        let mut out = String::new();
        push_hex_pad4(&mut out, unsigned_of(self.r0));
        out.append(" ");
        push_hex_pad4(&mut out, unsigned_of(self.r1));
        out.append(" ");
        push_hex_pad4(&mut out, unsigned_of(self.r2));
        out.append(" ");
        push_hex_pad4(&mut out, unsigned_of(self.r3));
        out.append(" ");
        push_hex_pad4(&mut out, unsigned_of(self.r4));
        proof {
            assert(out@ =~= regs_text(self@));
        }
        out
    }
}

impl Default for State {
    /// The machine with every register zero and no memory.
    fn default() -> (s: State)
        ensures
            s@.r0 == 0 && s@.r1 == 0 && s@.r2 == 0 && s@.r3 == 0 && s@.r4 == 0,
            s@.mem == Seq::<u8>::empty(),
    {
        State { r0: 0, r1: 0, r2: 0, r3: 0, r4: 0, mem: Vec::new() }
    }
}

/// A word written at an in-bounds address reads back unchanged: the
/// little-endian store/read pair is a round trip.
pub proof fn lemma_store_read_roundtrip(mem: Seq<u8>, addr: i32, v: i32)
    requires
        in_bounds(mem, addr),
    ensures
        word_at(stored(mem, addr, v), addr) == v,
{
    let u = word_unsigned(v);
    let off = byte_offset(addr);
    let m2 = stored(mem, addr, v);
    assert(m2[off] == (u % 0x100) as u8);
    assert(m2[off + 1] == ((u / 0x100) % 0x100) as u8);
    assert(m2[off + 2] == ((u / 0x1_0000) % 0x100) as u8);
    assert(m2[off + 3] == ((u / 0x100_0000) % 0x100) as u8);
    lemma_word_decomposition(u);
}

/// Any unsigned 32-bit value is the sum of its four bytes, weighted by
/// powers of 256.
proof fn lemma_word_decomposition(u: int)
    requires
        0 <= u < 0x1_0000_0000,
    ensures
        u % 0x100 + 0x100 * ((u / 0x100) % 0x100) + 0x1_0000 * ((u / 0x1_0000) % 0x100)
            + 0x100_0000 * ((u / 0x100_0000) % 0x100) == u,
{
    vstd::arithmetic::div_mod::lemma_fundamental_div_mod(u, 0x100);
    vstd::arithmetic::div_mod::lemma_fundamental_div_mod(u / 0x100, 0x100);
    vstd::arithmetic::div_mod::lemma_fundamental_div_mod(u / 0x1_0000, 0x100);
    vstd::arithmetic::div_mod::lemma_div_denominator(u, 0x100, 0x100);
    vstd::arithmetic::div_mod::lemma_div_denominator(u, 0x1_0000, 0x100);
    assert(u / 0x100_0000 < 0x100) by {
        vstd::arithmetic::div_mod::lemma_multiply_divide_lt(u, 0x100_0000, 0x100);
    };
    assert(u / 0x100_0000 >= 0) by {
        vstd::arithmetic::div_mod::lemma_div_pos_is_pos(u, 0x100_0000);
    };
    vstd::arithmetic::div_mod::lemma_small_mod((u / 0x100_0000) as nat, 0x100);
}

} // verus!
