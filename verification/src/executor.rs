//! The executor: applies one decoded instruction to a `State`. Ordinary
//! operations read the source operand, combine it with the destination's
//! current value and write the result back; `Jump` and `Return` are control
//! signals handed back to a caller-supplied dispatcher. All register
//! arithmetic wraps in two's complement; only division and remainder by a
//! zero source value fail.

use vstd::prelude::*;

use crate::Error;
use crate::insn::DestinationMode;
use crate::insn::Instruction;
use crate::insn::Operation;
use crate::insn::SourceMode;
use crate::state::StateModel;
use crate::state::State;
use crate::state::as_signed;
use crate::state::in_bounds;
use crate::state::reg;
use crate::state::signed_of;
use crate::state::stored;
use crate::state::with_reg;
use crate::state::word_at;
use crate::state::word_unsigned;

verus! {

/// What the executor hands back to its caller's dispatcher.
#[derive(Clone, Copy, Debug, PartialEq, Eq, Structural)]
pub enum Control {
    /// Fall through to the next instruction.
    Continue,
    /// Transfer to the basic block at the given target.
    Call(u32),
    /// The terminal instruction was reached.
    Return,
}

/// Rust's truncating 32-bit division, wrapping on `i32::MIN / -1`
/// (meaningful for `b != 0`).
pub open spec fn div32(a: i32, b: i32) -> i32 {
    match a.checked_div(b) {
        Some(q) => q,
        None => i32::MIN,
    }
}

/// Rust's truncating 32-bit remainder, zero on `i32::MIN % -1`
/// (meaningful for `b != 0`).
pub open spec fn rem32(a: i32, b: i32) -> i32 {
    match a.checked_rem(b) {
        Some(r) => r,
        None => 0,
    }
}

/// The shift amount named by a source value: its unsigned reinterpretation,
/// of which the wrapping shifts keep the low five bits.
pub open spec fn shift_amount(v: i32) -> u32 {
    word_unsigned(v) as u32
}

/// The result an operation computes from the destination's current value
/// `a` and the source value `b`, or the arithmetic fault it raises.
/// `Jump` and `Return` never reach this table.
pub open spec fn spec_apply(op: Operation, a: i32, b: i32) -> Result<i32, Error> {
    match op {
        Operation::Move => Ok(b),
        Operation::Add => Ok(vstd::wrapping::i32_specs::wrapping_add(a, b)),
        Operation::Sub => Ok(vstd::wrapping::i32_specs::wrapping_sub(a, b)),
        Operation::Mul => Ok(vstd::wrapping::i32_specs::wrapping_mul(a, b)),
        Operation::Div => if b == 0 {
            Err(Error::DivisionByZero)
        } else {
            Ok(div32(a, b))
        },
        Operation::Mod => if b == 0 {
            Err(Error::DivisionByZero)
        } else {
            Ok(rem32(a, b))
        },
        Operation::ShiftLeft => Ok(vstd::wrapping::i32_specs::wrapping_shl(a, shift_amount(b))),
        Operation::ShiftRight => Ok(vstd::wrapping::i32_specs::wrapping_shr(a, shift_amount(b))),
        Operation::Xor => Ok(a ^ b),
        Operation::And => Ok(a & b),
        Operation::Or => Ok(a | b),
        _ => Err(Error::MalformedInstruction),
    }
}

/// The source value an instruction reads, per its source addressing mode.
/// `Absent` is an error here: only `Jump` and `Return` go without a source.
pub open spec fn spec_source_value(inst: Instruction, m: StateModel) -> Result<i32, Error> {
    match inst.src_mode {
        SourceMode::LiteralIndirect => {
            let a = as_signed(inst.src);
            if in_bounds(m.mem, a) {
                Ok(word_at(m.mem, a))
            } else {
                Err(Error::OutOfBounds)
            }
        },
        SourceMode::RegisterIndirect => if inst.src >= 5 {
            Err(Error::MalformedInstruction)
        } else {
            let a = reg(m, inst.src as int);
            if in_bounds(m.mem, a) {
                Ok(word_at(m.mem, a))
            } else {
                Err(Error::OutOfBounds)
            }
        },
        SourceMode::RegisterDirect => if inst.src >= 5 {
            Err(Error::MalformedInstruction)
        } else {
            Ok(reg(m, inst.src as int))
        },
        SourceMode::Literal => Ok(as_signed(inst.src)),
        SourceMode::Absent => Err(Error::MalformedInstruction),
    }
}

/// The memory address or register a non-jump instruction writes back to.
pub open spec fn spec_dest_addr(inst: Instruction, m: StateModel) -> Result<i32, Error> {
    match inst.dest_mode {
        DestinationMode::Direct => if inst.dest >= 5 {
            Err(Error::MalformedInstruction)
        } else {
            Ok(0)
        },
        DestinationMode::IndirectRegister => if inst.dest >= 5 {
            Err(Error::MalformedInstruction)
        } else if in_bounds(m.mem, reg(m, inst.dest as int)) {
            Ok(reg(m, inst.dest as int))
        } else {
            Err(Error::OutOfBounds)
        },
        _ => {
            let a = as_signed(inst.dest);
            if in_bounds(m.mem, a) {
                Ok(a)
            } else {
                Err(Error::OutOfBounds)
            }
        },
    }
}

/// What executing `inst` in state `m` yields: the next state and the
/// control signal, or the fault that left the state untouched. The source
/// is read first, then the destination, then the operation is applied and
/// the result written back; a faulting step forbids every later write, so
/// a failed instruction never writes at all.
pub open spec fn spec_execute(inst: Instruction, m: StateModel) -> Result<
    (StateModel, Control),
    Error,
> {
    if inst.op is Return {
        Ok((m, Control::Return))
    } else if inst.op is Jump {
        if inst.dest_mode is Direct {
            Ok((m, Control::Call(inst.dest)))
        } else if inst.src >= 5 {
            Err(Error::MalformedInstruction)
        } else {
            let c = reg(m, inst.src as int);
            let taken = match inst.dest_mode {
                DestinationMode::AbsoluteAddress => c < 0,
                DestinationMode::IndirectRegister => c > 0,
                _ => c == 0,
            };
            Ok((m, if taken {
                Control::Call(inst.dest)
            } else {
                Control::Continue
            }))
        }
    } else {
        match spec_source_value(inst, m) {
            Err(e) => Err(e),
            Ok(sv) => match spec_dest_addr(inst, m) {
                Err(e) => Err(e),
                Ok(addr) => {
                    let old_value = if inst.dest_mode is Direct {
                        reg(m, inst.dest as int)
                    } else {
                        word_at(m.mem, addr)
                    };
                    match spec_apply(inst.op, old_value, sv) {
                        Err(e) => Err(e),
                        Ok(v) => if inst.dest_mode is Direct {
                            Ok((with_reg(m, inst.dest as int, v), Control::Continue))
                        } else {
                            Ok(
                                (
                                    StateModel { mem: stored(m.mem, addr, v), ..m },
                                    Control::Continue,
                                ),
                            )
                        },
                    }
                },
            },
        }
    }
}

/// Executes one decoded instruction against `s`, exactly as `spec_execute`
/// describes. On any error the state is left unmodified.
pub fn execute(inst: &Instruction, s: &mut State) -> (r: Result<Control, Error>)
    ensures
        match spec_execute(*inst, old(s)@) {
            Ok((m2, c)) => r matches Ok(c2) && c2 == c && final(s)@ == m2,
            Err(e) => r matches Err(e2) && e2 == e && final(s)@ == old(s)@,
        },
{
    match inst.op {
        Operation::Return => Ok(Control::Return),
        Operation::Jump => {
            match inst.dest_mode {
                DestinationMode::Direct => Ok(Control::Call(inst.dest)),
                _ => {
                    if inst.src >= 5 {
                        return Err(Error::MalformedInstruction);
                    }
                    let c = s.get_reg(inst.src);
                    let taken = match inst.dest_mode {
                        DestinationMode::AbsoluteAddress => c < 0,
                        DestinationMode::IndirectRegister => c > 0,
                        _ => c == 0,
                    };
                    Ok(if taken {
                        Control::Call(inst.dest)
                    } else {
                        Control::Continue
                    })
                },
            }
        },
        _ => {
            // Source operand.
            let sv: i32 = match inst.src_mode {
                SourceMode::LiteralIndirect => {
                    let a = signed_of(inst.src);
                    match s.read(a) {
                        Ok(v) => v,
                        Err(e) => { return Err(e) },
                    }
                },
                SourceMode::RegisterIndirect => {
                    if inst.src >= 5 {
                        return Err(Error::MalformedInstruction);
                    }
                    let a = s.get_reg(inst.src);
                    match s.read(a) {
                        Ok(v) => v,
                        Err(e) => { return Err(e) },
                    }
                },
                SourceMode::RegisterDirect => {
                    if inst.src >= 5 {
                        return Err(Error::MalformedInstruction);
                    }
                    s.get_reg(inst.src)
                },
                SourceMode::Literal => signed_of(inst.src),
                SourceMode::Absent => { return Err(Error::MalformedInstruction) },
            };

            // Destination address and current value.
            let direct = matches!(inst.dest_mode, DestinationMode::Direct);
            let addr: i32;
            let old_value: i32;
            match inst.dest_mode {
                DestinationMode::Direct => {
                    if inst.dest >= 5 {
                        return Err(Error::MalformedInstruction);
                    }
                    addr = 0;
                    old_value = s.get_reg(inst.dest);
                },
                DestinationMode::IndirectRegister => {
                    if inst.dest >= 5 {
                        return Err(Error::MalformedInstruction);
                    }
                    let a = s.get_reg(inst.dest);
                    match s.read(a) {
                        Ok(v) => {
                            addr = a;
                            old_value = v;
                        },
                        Err(e) => { return Err(e) },
                    }
                },
                _ => {
                    let a = signed_of(inst.dest);
                    match s.read(a) {
                        Ok(v) => {
                            addr = a;
                            old_value = v;
                        },
                        Err(e) => { return Err(e) },
                    }
                },
            }

            // The operation itself.
            let amount: u32 = if sv >= 0 {
                sv as u32
            } else {
                ((sv as i64) + 0x1_0000_0000) as u32
            };
            let v: i32 = match inst.op {
                Operation::Move => sv,
                Operation::Add => old_value.wrapping_add(sv),
                Operation::Sub => old_value.wrapping_sub(sv),
                Operation::Mul => old_value.wrapping_mul(sv),
                Operation::Div => {
                    if sv == 0 {
                        return Err(Error::DivisionByZero);
                    }
                    match old_value.checked_div(sv) {
                        Some(q) => q,
                        None => i32::MIN,
                    }
                },
                Operation::Mod => {
                    if sv == 0 {
                        return Err(Error::DivisionByZero);
                    }
                    match old_value.checked_rem(sv) {
                        Some(r2) => r2,
                        None => 0,
                    }
                },
                Operation::ShiftLeft => old_value.wrapping_shl(amount),
                Operation::ShiftRight => old_value.wrapping_shr(amount),
                Operation::Xor => old_value ^ sv,
                Operation::And => old_value & sv,
                _ => old_value | sv,
            };

            // Write back.
            if direct {
                s.set_reg(inst.dest, v);
            } else {
                let _ = s.store(addr, v);
            }
            Ok(Control::Continue)
        },
    }
}

/// A `Move` from a literal source into a register sets that register to
/// the literal, whatever it held before, and touches nothing else.
pub proof fn lemma_move_literal_sets_register(inst: Instruction, m: StateModel)
    requires
        inst.op == Operation::Move,
        inst.src_mode == SourceMode::Literal,
        inst.dest_mode == DestinationMode::Direct,
        inst.dest < 5,
    ensures
        spec_execute(inst, m) == Ok::<_, Error>(
            (with_reg(m, inst.dest as int, as_signed(inst.src)), Control::Continue),
        ),
{
}

/// A division or remainder whose source value is zero fails with
/// `DivisionByZero` once both operands were addressable; `execute` then
/// leaves the state unmodified.
pub proof fn lemma_zero_divisor_faults(inst: Instruction, m: StateModel)
    requires
        inst.op == Operation::Div || inst.op == Operation::Mod,
        spec_source_value(inst, m) == Ok::<i32, Error>(0),
        spec_dest_addr(inst, m) is Ok,
    ensures
        spec_execute(inst, m) == Err::<(StateModel, Control), Error>(Error::DivisionByZero),
{
}

/// A `Jump` whose destination mode is `ZeroPadAbsolute` is the `== 0`
/// conditional: it signals a transfer to `dest` exactly when the register
/// named by `src` holds zero, and falls through otherwise. The state is
/// never changed.
pub proof fn lemma_jump_zero_predicate(inst: Instruction, m: StateModel)
    requires
        inst.op == Operation::Jump,
        inst.dest_mode == DestinationMode::ZeroPadAbsolute,
        inst.src < 5,
    ensures
        reg(m, inst.src as int) == 0 ==> spec_execute(inst, m) == Ok::<_, Error>(
            (m, Control::Call(inst.dest)),
        ),
        reg(m, inst.src as int) != 0 ==> spec_execute(inst, m) == Ok::<_, Error>(
            (m, Control::Continue),
        ),
{
}

} // verus!
