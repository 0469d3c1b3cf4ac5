//! The instruction decoder: one instruction is encoded as a printf-style
//! conversion specifier. The flag selects the destination addressing mode,
//! the width field is the destination operand, the precision field is the
//! source operand, the length modifier selects the source addressing mode,
//! and the conversion character selects the operation.

use vstd::prelude::*;
use vstd::slice::slice_index_get;
use vstd::slice::slice_subrange;

use crate::Error;

verus! {

/// How the destination operand is addressed.
///
/// For a `Jump`, the same modes double as branch predicates on a register
/// compared against zero: `AbsoluteAddress` means `< 0`, `IndirectRegister`
/// means `> 0`, `ZeroPadAbsolute` means `== 0`, and `Direct` means an
/// unconditional transfer. This operand reuse is a feature of the encoding.
#[derive(Clone, Copy, Debug, PartialEq, Eq, Structural)]
pub enum DestinationMode {
    /// The operand names a register by index.
    Direct,
    /// The operand is a literal memory address.
    AbsoluteAddress,
    /// The operand names a register holding a memory address.
    IndirectRegister,
    /// Same addressing as `AbsoluteAddress`; distinguished only by the
    /// leading-zero flag in the encoded bytes.
    ZeroPadAbsolute,
}

/// How the source operand is addressed.
#[derive(Clone, Copy, Debug, PartialEq, Eq, Structural)]
pub enum SourceMode {
    /// Reads memory at a literal address (`hh` modifier).
    LiteralIndirect,
    /// Reads memory at the address held in a register (`h` modifier).
    RegisterIndirect,
    /// Reads a register value (`l` modifier).
    RegisterDirect,
    /// The operand value itself (`ll` modifier).
    Literal,
    /// No source operand (no modifier).
    Absent,
}

/// The operation an instruction performs.
#[derive(Clone, Copy, Debug, PartialEq, Eq, Structural)]
pub enum Operation {
    Jump,
    Move,
    Add,
    Sub,
    Mul,
    Div,
    Mod,
    ShiftLeft,
    ShiftRight,
    Xor,
    And,
    Or,
    /// Terminal; produced only by the sentinel zero byte.
    Return,
}

/// One decoded instruction.
#[derive(Clone, Copy, Debug, PartialEq, Eq, Structural)]
pub struct Instruction {
    /// The width field: destination operand.
    pub dest: u32,
    /// The precision field: source operand, zero if absent.
    pub src: u32,
    pub dest_mode: DestinationMode,
    pub src_mode: SourceMode,
    pub op: Operation,
}

/// The instruction produced by the sentinel zero byte.
pub open spec fn return_instruction() -> Instruction {
    Instruction {
        dest: 0,
        src: 0,
        dest_mode: DestinationMode::AbsoluteAddress,
        src_mode: SourceMode::Literal,
        op: Operation::Return,
    }
}

pub open spec fn is_ascii_digit(b: u8) -> bool {
    0x30 <= b <= 0x39
}

/// Length of the run of ASCII decimal digits starting at `i`.
pub open spec fn digit_run_len(s: Seq<u8>, i: int) -> int
    decreases s.len() - i,
{
    if 0 <= i < s.len() && is_ascii_digit(s[i]) {
        1 + digit_run_len(s, i + 1)
    } else {
        0
    }
}

/// The plain base-10 value of the `n` digits starting at `i`.
pub open spec fn digits_value(s: Seq<u8>, i: int, n: int) -> int
    decreases n,
{
    if n <= 0 {
        0
    } else {
        digits_value(s, i, n - 1) * 10 + (s[i + n - 1] - 0x30)
    }
}

/// The number field starting at `i`: its value (an unsigned base-10
/// integer, reduced modulo 2^32 exactly as the accumulating parser wraps)
/// and the position just past the digit run. No digits yields zero.
pub open spec fn spec_number(s: Seq<u8>, i: int) -> (u32, int) {
    let n = digit_run_len(s, i);
    ((digits_value(s, i, n) % 0x1_0000_0000) as u32, i + n)
}

/// The optional flag byte at `i` and the position where the width field
/// starts. A `0` immediately followed by `.` selects `Direct` and leaves
/// the `0` for the width field; a lone `0` selects `ZeroPadAbsolute`.
pub open spec fn spec_flag(s: Seq<u8>, i: int) -> (DestinationMode, int) {
    if 0 <= i < s.len() && s[i] == 0x2d {
        (DestinationMode::AbsoluteAddress, i + 1)
    } else if 0 <= i < s.len() && s[i] == 0x2b {
        (DestinationMode::IndirectRegister, i + 1)
    } else if 0 <= i < s.len() && s[i] == 0x30 {
        if i + 1 < s.len() && s[i + 1] == 0x2e {
            (DestinationMode::Direct, i)
        } else {
            (DestinationMode::ZeroPadAbsolute, i + 1)
        }
    } else {
        (DestinationMode::Direct, i)
    }
}

/// The optional precision field at `i`: source operand value, source mode
/// from the length modifier, and the position of the conversion character.
/// Without a leading `.` the source is zero and `Absent`.
pub open spec fn spec_src_field(s: Seq<u8>, i: int) -> (u32, SourceMode, int) {
    if 0 <= i < s.len() && s[i] == 0x2e {
        let (v, j) = spec_number(s, i + 1);
        if j + 1 < s.len() && s[j] == 0x68 && s[j + 1] == 0x68 {
            (v, SourceMode::LiteralIndirect, j + 2)
        } else if j < s.len() && s[j] == 0x68 {
            (v, SourceMode::RegisterIndirect, j + 1)
        } else if j + 1 < s.len() && s[j] == 0x6c && s[j + 1] == 0x6c {
            (v, SourceMode::Literal, j + 2)
        } else if j < s.len() && s[j] == 0x6c {
            (v, SourceMode::RegisterDirect, j + 1)
        } else {
            (v, SourceMode::Absent, j)
        }
    } else {
        (0, SourceMode::Absent, i)
    }
}

/// The closed conversion-character table; twelve characters, one per
/// operation other than `Return`.
pub open spec fn spec_operation(b: u8) -> Option<Operation> {
    if b == 0x43 {
        Some(Operation::Jump)
    } else if b == 0x4d {
        Some(Operation::Move)
    } else if b == 0x53 {
        Some(Operation::Add)
    } else if b == 0x4f {
        Some(Operation::Sub)
    } else if b == 0x58 {
        Some(Operation::Mul)
    } else if b == 0x56 {
        Some(Operation::Div)
    } else if b == 0x4e {
        Some(Operation::Mod)
    } else if b == 0x4c {
        Some(Operation::ShiftLeft)
    } else if b == 0x52 {
        Some(Operation::ShiftRight)
    } else if b == 0x45 {
        Some(Operation::Xor)
    } else if b == 0x49 {
        Some(Operation::And)
    } else if b == 0x55 {
        Some(Operation::Or)
    } else {
        None
    }
}

/// The grammar of one instruction: what decoding `s` yields, and how many
/// bytes it consumes.
pub open spec fn spec_decode(s: Seq<u8>) -> Result<(Instruction, int), Error> {
    if s.len() == 0 {
        Err(Error::UnexpectedEndOfStream)
    } else if s[0] == 0 {
        Ok((return_instruction(), 1))
    } else if s[0] != 0x25 {
        Err(Error::MalformedInstruction)
    } else {
        let (dest_mode, i1) = spec_flag(s, 1);
        let (dest, i2) = spec_number(s, i1);
        let (src, src_mode, i3) = spec_src_field(s, i2);
        if !(i3 < s.len()) {
            Err(Error::UnexpectedEndOfStream)
        } else if spec_operation(s[i3]) is None {
            Err(Error::MalformedInstruction)
        } else {
            Ok(
                (
                    Instruction {
                        dest,
                        src,
                        dest_mode,
                        src_mode,
                        op: spec_operation(s[i3]).unwrap(),
                    },
                    i3 + 1,
                ),
            )
        }
    }
}

/// Reads the digit run starting at `i`, accumulating base 10 modulo 2^32.
fn number_at(mem: &[u8], i: usize) -> (r: (u32, usize))
    requires
        i <= mem@.len(),
    ensures
        r.0 == spec_number(mem@, i as int).0,
        r.1 == spec_number(mem@, i as int).1,
        i <= r.1 <= mem@.len(),
{
    let n = mem.len();
    let mut j = i;
    let mut val: u32 = 0;
    while j < n && *slice_index_get(mem, j) >= 0x30 && *slice_index_get(mem, j) <= 0x39
        invariant
            i <= j <= n == mem@.len(),
            digit_run_len(mem@, i as int) == j - i + digit_run_len(mem@, j as int),
            val == digits_value(mem@, i as int, j - i) % 0x1_0000_0000,
        decreases n - j,
    {
        let d = *slice_index_get(mem, j) - 0x30;
        proof {
            lemma_digit_step(mem@, i as int, j as int, val as int, d as int);
        }
        val = ((val as u64 * 10 + d as u64) % 0x1_0000_0000) as u32;
        j += 1;
    }
    proof {
        assert(digit_run_len(mem@, j as int) == 0);
    }
    (val, j)
}

/// One accumulation step keeps the running value congruent to the plain
/// base-10 value of the digits consumed so far.
proof fn lemma_digit_step(s: Seq<u8>, i: int, j: int, val: int, d: int)
    requires
        0 <= i <= j < s.len(),
        is_ascii_digit(s[j]),
        d == s[j] - 0x30,
        val == digits_value(s, i, j - i) % 0x1_0000_0000,
    ensures
        (val * 10 + d) % 0x1_0000_0000 == digits_value(s, i, j + 1 - i) % 0x1_0000_0000,
{
    let m = 0x1_0000_0000;
    let v = digits_value(s, i, j - i);
    assert(digits_value(s, i, j + 1 - i) == v * 10 + d);
    vstd::arithmetic::div_mod::lemma_mul_mod_noop_left(v, 10, m);
    vstd::arithmetic::div_mod::lemma_add_mod_noop(v * 10, d, m);
    assert(d % m == d);
    vstd::arithmetic::div_mod::lemma_add_mod_noop((v % m) * 10, d, m);
    assert((v % m) * 10 % m == v * 10 % m);
    assert(((v % m) * 10 + d) % m == (v * 10 + d) % m);
}

/// The number parser of the decoder: the leading digit run of `mem` as an
/// unsigned base-10 integer (zero when there are no digits, wrapping
/// modulo 2^32) together with the bytes that follow it.
pub fn parse_int(mem: &[u8]) -> (r: (u32, &[u8]))
    ensures
        r.0 == spec_number(mem@, 0).0,
        r.1@ == mem@.skip(spec_number(mem@, 0).1),
{
    let (val, j) = number_at(mem, 0);
    let rest = slice_subrange(mem, j, mem.len());
    proof {
        assert(rest@ =~= mem@.skip(j as int));
    }
    (val, rest)
}

impl Instruction {
    /// Decodes one instruction from the front of `mem`, returning it with
    /// the bytes that follow, exactly as `spec_decode` describes: the
    /// sentinel zero byte yields `Return` and consumes one byte; otherwise
    /// the marker `%`, the flag, the width, the optional precision with its
    /// length modifier and one conversion character are consumed in order.
    /// Running out of bytes yields `UnexpectedEndOfStream`; a wrong marker
    /// or conversion character yields `MalformedInstruction`.
    pub fn parse(mem: &[u8]) -> (r: Result<(Instruction, &[u8]), Error>)
        ensures
            match spec_decode(mem@) {
                Ok((inst, n)) => r matches Ok(p) && p.0 == inst && p.1@ == mem@.skip(n),
                Err(e) => r matches Err(e2) && e2 == e,
            },
    {
        let n = mem.len();
        if n == 0 {
            return Err(Error::UnexpectedEndOfStream);
        }
        if *slice_index_get(mem, 0) == 0 {
            let rest = slice_subrange(mem, 1, n);
            proof {
                assert(rest@ =~= mem@.skip(1));
            }
            return Ok(
                (
                    Instruction {
                        dest: 0,
                        src: 0,
                        dest_mode: DestinationMode::AbsoluteAddress,
                        src_mode: SourceMode::Literal,
                        op: Operation::Return,
                    },
                    rest,
                ),
            );
        }
        if *slice_index_get(mem, 0) != 0x25 {
            return Err(Error::MalformedInstruction);
        }

        // Flag byte: the `0` vs `0.` lookahead decides between
        // `ZeroPadAbsolute` and `Direct` without consuming the `0`.
        let mut i: usize = 1;
        let dest_mode: DestinationMode;
        if i < n && *slice_index_get(mem, i) == 0x2d {
            dest_mode = DestinationMode::AbsoluteAddress;
            i += 1;
        } else if i < n && *slice_index_get(mem, i) == 0x2b {
            dest_mode = DestinationMode::IndirectRegister;
            i += 1;
        } else if i < n && *slice_index_get(mem, i) == 0x30 {
            if i < n && n - i > 1 && *slice_index_get(mem, i + 1) == 0x2e {
                dest_mode = DestinationMode::Direct;
            } else {
                dest_mode = DestinationMode::ZeroPadAbsolute;
                i += 1;
            }
        } else {
            dest_mode = DestinationMode::Direct;
        }
        proof {
            assert((dest_mode, i as int) == spec_flag(mem@, 1));
        }

        // Width field.
        let (dest, i2) = number_at(mem, i);

        // Optional precision field with its length modifier.
        let mut src: u32 = 0;
        let mut src_mode = SourceMode::Absent;
        let mut i3 = i2;
        if i2 < n && *slice_index_get(mem, i2) == 0x2e {
            let (v, j) = number_at(mem, i2 + 1);
            src = v;
            if j < n && n - j > 1 && *slice_index_get(mem, j) == 0x68 && *slice_index_get(
                mem,
                j + 1,
            ) == 0x68 {
                src_mode = SourceMode::LiteralIndirect;
                i3 = j + 2;
            } else if j < n && *slice_index_get(mem, j) == 0x68 {
                src_mode = SourceMode::RegisterIndirect;
                i3 = j + 1;
            } else if j < n && n - j > 1 && *slice_index_get(mem, j) == 0x6c
                && *slice_index_get(mem, j + 1) == 0x6c {
                src_mode = SourceMode::Literal;
                i3 = j + 2;
            } else if j < n && *slice_index_get(mem, j) == 0x6c {
                src_mode = SourceMode::RegisterDirect;
                i3 = j + 1;
            } else {
                src_mode = SourceMode::Absent;
                i3 = j;
            }
        }
        proof {
            assert((src, src_mode, i3 as int) == spec_src_field(mem@, i2 as int));
        }

        // Conversion character.
        if !(i3 < n) {
            return Err(Error::UnexpectedEndOfStream);
        }
        let ob = *slice_index_get(mem, i3);
        let op: Operation;
        if ob == 0x43 {
            op = Operation::Jump;
        } else if ob == 0x4d {
            op = Operation::Move;
        } else if ob == 0x53 {
            op = Operation::Add;
        } else if ob == 0x4f {
            op = Operation::Sub;
        } else if ob == 0x58 {
            op = Operation::Mul;
        } else if ob == 0x56 {
            op = Operation::Div;
        } else if ob == 0x4e {
            op = Operation::Mod;
        } else if ob == 0x4c {
            op = Operation::ShiftLeft;
        } else if ob == 0x52 {
            op = Operation::ShiftRight;
        } else if ob == 0x45 {
            op = Operation::Xor;
        } else if ob == 0x49 {
            op = Operation::And;
        } else if ob == 0x55 {
            op = Operation::Or;
        } else {
            return Err(Error::MalformedInstruction);
        }
        let rest = slice_subrange(mem, i3 + 1, n);
        proof {
            assert(rest@ =~= mem@.skip(i3 + 1));
        }
        Ok((Instruction { dest, src, dest_mode, src_mode, op }, rest))
    }
}

/// The sentinel zero byte always decodes to the terminal `Return` and
/// consumes exactly one byte, whatever follows it.
pub proof fn lemma_sentinel_decodes_to_return(s: Seq<u8>)
    requires
        s.len() > 0,
        s[0] == 0,
    ensures
        spec_decode(s) == Ok::<(Instruction, int), Error>((return_instruction(), 1)),
{
}

/// The decimal digit bytes of `v`, most significant first, no leading
/// zero (meaningful for `v >= 0`; zero is the single byte `0`).
pub open spec fn dec_bytes(v: int) -> Seq<u8>
    decreases v,
{
    if v < 10 {
        seq![(0x30 + v) as u8]
    } else {
        dec_bytes(v / 10) + seq![(0x30 + v % 10) as u8]
    }
}

/// The flag byte that selects a destination mode; `Direct` has none.
pub open spec fn flag_bytes(dm: DestinationMode) -> Seq<u8> {
    match dm {
        DestinationMode::Direct => Seq::<u8>::empty(),
        DestinationMode::AbsoluteAddress => seq![0x2du8],
        DestinationMode::IndirectRegister => seq![0x2bu8],
        DestinationMode::ZeroPadAbsolute => seq![0x30u8],
    }
}

/// The length modifier that selects a source mode.
pub open spec fn modifier_bytes(sm: SourceMode) -> Seq<u8> {
    match sm {
        SourceMode::LiteralIndirect => seq![0x68u8, 0x68u8],
        SourceMode::RegisterIndirect => seq![0x68u8],
        SourceMode::Literal => seq![0x6cu8, 0x6cu8],
        SourceMode::RegisterDirect => seq![0x6cu8],
        SourceMode::Absent => Seq::<u8>::empty(),
    }
}

/// The conversion character of an operation other than `Return`.
pub open spec fn op_byte(op: Operation) -> u8 {
    match op {
        Operation::Jump => 0x43,
        Operation::Move => 0x4d,
        Operation::Add => 0x53,
        Operation::Sub => 0x4f,
        Operation::Mul => 0x58,
        Operation::Div => 0x56,
        Operation::Mod => 0x4e,
        Operation::ShiftLeft => 0x4c,
        Operation::ShiftRight => 0x52,
        Operation::Xor => 0x45,
        Operation::And => 0x49,
        _ => 0x55,
    }
}

/// The instructions the encoding can express at all: `Return` only as the
/// sentinel instruction, and a source operand only under a source mode.
pub open spec fn encodable(i: Instruction) -> bool {
    &&& (i.op is Return ==> i == return_instruction())
    &&& (i.src_mode is Absent ==> i.src == 0)
}

/// The width-field digits: a `Direct` destination of zero is written out
/// only when a precision field follows (the `0.` lookahead then still
/// selects `Direct`); writing it without one would read back as
/// `ZeroPadAbsolute`.
pub open spec fn dest_bytes(i: Instruction) -> Seq<u8> {
    if i.dest_mode is Direct && i.dest == 0 && i.src_mode is Absent {
        Seq::<u8>::empty()
    } else {
        dec_bytes(i.dest as int)
    }
}

/// The precision field with its length modifier, absent when the source
/// mode is `Absent`.
pub open spec fn src_bytes(i: Instruction) -> Seq<u8> {
    if i.src_mode is Absent {
        Seq::<u8>::empty()
    } else {
        seq![0x2eu8] + dec_bytes(i.src as int) + modifier_bytes(i.src_mode)
    }
}

/// The canonical byte encoding of an instruction: the sentinel for
/// `Return`, otherwise marker, flag, width, precision and conversion
/// character.
pub open spec fn spec_encode(i: Instruction) -> Seq<u8> {
    if i.op is Return {
        seq![0u8]
    } else {
        seq![0x25u8] + flag_bytes(i.dest_mode) + dest_bytes(i) + src_bytes(i) + seq![
            op_byte(i.op),
        ]
    }
}

/// Every byte of a canonical decimal run is a digit, there is at least
/// one, and the first is nonzero unless the value is zero.
proof fn lemma_dec_bytes_shape(v: int)
    requires
        0 <= v,
    ensures
        dec_bytes(v).len() >= 1,
        forall|j: int| 0 <= j < dec_bytes(v).len() ==> is_ascii_digit(#[trigger] dec_bytes(v)[j]),
        v > 0 ==> dec_bytes(v)[0] != 0x30,
        v == 0 ==> dec_bytes(v) == seq![0x30u8],
    decreases v,
{
    if v >= 10 {
        lemma_dec_bytes_shape(v / 10);
    }
}

/// A run of digit bytes bounded by a non-digit (or the end) is exactly
/// the digit run the decoder sees.
proof fn lemma_run_of_digits(s: Seq<u8>, i: int, ds: Seq<u8>)
    requires
        0 <= i,
        i + ds.len() <= s.len(),
        s.subrange(i, i + ds.len()) == ds,
        forall|j: int| 0 <= j < ds.len() ==> is_ascii_digit(#[trigger] ds[j]),
        i + ds.len() == s.len() || !is_ascii_digit(s[i + ds.len()]),
    ensures
        digit_run_len(s, i) == ds.len(),
    decreases ds.len(),
{
    if ds.len() == 0 {
    } else {
        assert(s[i] == ds[0]);
        assert(s.subrange(i + 1, i + ds.len()) =~= ds.skip(1));
        lemma_run_of_digits(s, i + 1, ds.skip(1));
    }
}

/// The decoder's accumulated value over a canonical decimal run is the
/// value the run was written from.
proof fn lemma_value_of_digits(s: Seq<u8>, i: int, v: int)
    requires
        0 <= i,
        0 <= v,
        i + dec_bytes(v).len() <= s.len(),
        s.subrange(i, i + dec_bytes(v).len()) == dec_bytes(v),
    ensures
        digits_value(s, i, dec_bytes(v).len() as int) == v,
    decreases v,
{
    let n = dec_bytes(v).len() as int;
    if v < 10 {
        assert(s[i] == dec_bytes(v)[0]);
        assert(digits_value(s, i, 1) == digits_value(s, i, 0) * 10 + (s[i] - 0x30));
    } else {
        lemma_dec_bytes_shape(v / 10);
        assert(s.subrange(i, i + (n - 1)) =~= dec_bytes(v / 10));
        lemma_value_of_digits(s, i, v / 10);
        assert(s[i + n - 1] == dec_bytes(v)[n - 1]);
        assert(dec_bytes(v)[n - 1] == (0x30 + v % 10) as u8);
        assert(digits_value(s, i, n) == digits_value(s, i, n - 1) * 10 + (s[i + n - 1] - 0x30));
        vstd::arithmetic::div_mod::lemma_fundamental_div_mod(v, 10);
    }
}

/// Parsing a number field over a canonical decimal run yields the value
/// it was written from and stops right after it.
proof fn lemma_number_of_digits(s: Seq<u8>, i: int, v: int)
    requires
        0 <= i,
        0 <= v < 0x1_0000_0000,
        i + dec_bytes(v).len() <= s.len(),
        s.subrange(i, i + dec_bytes(v).len()) == dec_bytes(v),
        i + dec_bytes(v).len() == s.len() || !is_ascii_digit(s[i + dec_bytes(v).len()]),
    ensures
        spec_number(s, i) == ((v as u32, i + dec_bytes(v).len() as int)),
{
    lemma_dec_bytes_shape(v);
    lemma_run_of_digits(s, i, dec_bytes(v));
    lemma_value_of_digits(s, i, v);
    vstd::arithmetic::div_mod::lemma_small_mod(v as nat, 0x1_0000_0000nat);
}

/// Decoding the canonical encoding of an expressible instruction yields
/// that instruction back and consumes the whole encoding: the encoder and
/// the decoder are a round trip.
#[verifier::rlimit(100)]
pub proof fn lemma_decode_encode_roundtrip(i: Instruction)
    requires
        encodable(i),
    ensures
        spec_decode(spec_encode(i)) == Ok::<(Instruction, int), Error>(
            (i, spec_encode(i).len() as int),
        ),
{
    let s = spec_encode(i);
    if i.op is Return {
        assert(s[0] == 0);
    } else {
        let f = flag_bytes(i.dest_mode);
        let dd = dest_bytes(i);
        let sf = src_bytes(i);
        let i1 = 1 + f.len() as int;
        let i2 = i1 + dd.len() as int;
        let i3 = i2 + sf.len() as int;
        assert(s.len() == i3 + 1);
        assert(s[0] == 0x25);
        lemma_dec_bytes_shape(i.dest as int);
        lemma_dec_bytes_shape(i.src as int);

        // The flag parse lands on `(i.dest_mode, i1)`.
        assert(spec_flag(s, 1) == ((i.dest_mode, i1))) by {
            match i.dest_mode {
                DestinationMode::AbsoluteAddress => {
                    assert(s[1] == 0x2d);
                },
                DestinationMode::IndirectRegister => {
                    assert(s[1] == 0x2b);
                },
                DestinationMode::ZeroPadAbsolute => {
                    assert(s[1] == 0x30);
                    assert(s[2] == dd[0]);
                    assert(is_ascii_digit(dd[0]));
                },
                DestinationMode::Direct => {
                    if dd.len() == 0 {
                        assert(s[1] == op_byte(i.op));
                    } else if i.dest == 0 {
                        assert(s[1] == 0x30);
                        assert(s[2] == sf[0]);
                        assert(sf[0] == 0x2e);
                    } else {
                        assert(s[1] == dd[0]);
                        assert(dd[0] != 0x30);
                        assert(is_ascii_digit(dd[0]));
                    }
                },
            }
        }

        // The width field parses back to `i.dest` and stops at `i2`.
        assert(spec_number(s, i1) == ((i.dest, i2))) by {
            if dd.len() == 0 {
                assert(!is_ascii_digit(s[i1]));
                assert(digit_run_len(s, i1) == 0);
            } else {
                assert(s.subrange(i1, i2) =~= dec_bytes(i.dest as int));
                assert(!is_ascii_digit(s[i2])) by {
                    if sf.len() == 0 {
                        assert(s[i2] == op_byte(i.op));
                    } else {
                        assert(s[i2] == sf[0]);
                        assert(sf[0] == 0x2e);
                    }
                }
                lemma_number_of_digits(s, i1, i.dest as int);
            }
        }

        // The precision field parses back to `i.src` and `i.src_mode`.
        assert(spec_src_field(s, i2) == ((i.src, i.src_mode, i3))) by {
            if i.src_mode is Absent {
                assert(s[i2] == op_byte(i.op));
            } else {
                assert(s[i2] == sf[0]);
                assert(sf[0] == 0x2e);
                let sd = dec_bytes(i.src as int);
                let j = i2 + 1 + sd.len() as int;
                assert(spec_number(s, i2 + 1) == ((i.src, j))) by {
                    assert(s.subrange(i2 + 1, j) =~= sd);
                    assert(s[j] == modifier_bytes(i.src_mode)[0]);
                    assert(!is_ascii_digit(s[j]));
                    lemma_number_of_digits(s, i2 + 1, i.src as int);
                }
                match i.src_mode {
                    SourceMode::LiteralIndirect => {
                        assert(s[j] == 0x68 && s[j + 1] == 0x68);
                    },
                    SourceMode::RegisterIndirect => {
                        assert(s[j] == 0x68 && s[j + 1] == op_byte(i.op));
                    },
                    SourceMode::Literal => {
                        assert(s[j] == 0x6c && s[j + 1] == 0x6c);
                    },
                    SourceMode::RegisterDirect => {
                        assert(s[j] == 0x6c && s[j + 1] == op_byte(i.op));
                    },
                    SourceMode::Absent => {
                    },
                }
            }
        }

        assert(s[i3] == op_byte(i.op));
        assert(spec_operation(op_byte(i.op)) == Some(i.op));
    }
}

/// Appends the decimal digit bytes of `n`.
fn push_dec_bytes(out: &mut Vec<u8>, n: u32)
    ensures
        final(out)@ == old(out)@ + dec_bytes(n as int),
    decreases n,
{
    if n < 10 {
        out.push(0x30 + (n as u8));
    } else {
        push_dec_bytes(out, n / 10);
        out.push(0x30 + ((n % 10) as u8));
    }
    proof {
        assert(out@ =~= old(out)@ + dec_bytes(n as int));
    }
}

impl Instruction {
    /// The canonical byte encoding of this instruction, per
    /// `spec_encode`: what `parse` decodes back to the instruction
    /// itself. Built for testing the round trip; the machine itself only
    /// ever decodes.
    #[verifier::rlimit(100)]
    pub fn encode(&self) -> (r: Vec<u8>)
        requires
            encodable(*self),
        ensures
            r@ == spec_encode(*self),
    {
        let mut out: Vec<u8> = Vec::new();
        if matches!(self.op, Operation::Return) {
            out.push(0);
            proof {
                assert(out@ =~= spec_encode(*self));
            }
            return out;
        }
        out.push(0x25);
        match self.dest_mode {
            DestinationMode::Direct => {},
            DestinationMode::AbsoluteAddress => out.push(0x2d),
            DestinationMode::IndirectRegister => out.push(0x2b),
            DestinationMode::ZeroPadAbsolute => out.push(0x30),
        }
        let skip_width = matches!(self.dest_mode, DestinationMode::Direct) && self.dest == 0
            && matches!(self.src_mode, SourceMode::Absent);
        if !skip_width {
            push_dec_bytes(&mut out, self.dest);
        }
        match self.src_mode {
            SourceMode::Absent => {},
            _ => {
                out.push(0x2e);
                push_dec_bytes(&mut out, self.src);
                match self.src_mode {
                    SourceMode::LiteralIndirect => {
                        out.push(0x68);
                        out.push(0x68);
                    },
                    SourceMode::RegisterIndirect => out.push(0x68),
                    SourceMode::Literal => {
                        out.push(0x6c);
                        out.push(0x6c);
                    },
                    _ => out.push(0x6c),
                }
            },
        }
        let ob: u8 = match self.op {
            Operation::Jump => 0x43,
            Operation::Move => 0x4d,
            Operation::Add => 0x53,
            Operation::Sub => 0x4f,
            Operation::Mul => 0x58,
            Operation::Div => 0x56,
            Operation::Mod => 0x4e,
            Operation::ShiftLeft => 0x4c,
            Operation::ShiftRight => 0x52,
            Operation::Xor => 0x45,
            Operation::And => 0x49,
            _ => 0x55,
        };
        out.push(ob);
        proof {
            assert(out@ =~= spec_encode(*self));
        }
        out
    }
}

} // verus!
