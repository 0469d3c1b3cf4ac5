//! The renderer: a decoded instruction as pseudo-code for a human audit.
//! It is a second interpretation of the same instruction and never feeds
//! execution.

use vstd::prelude::*;
use vstd::string::StringExecFns;

use crate::Error;
use crate::insn::DestinationMode;
use crate::insn::Instruction;
use crate::insn::Operation;
use crate::insn::SourceMode;
use crate::text::dec_digits;
use crate::text::hex_digits;
use crate::text::push_dec;
use crate::text::push_hex;

verus! {

/// The compound-assignment symbol of an ordinary operation.
pub open spec fn op_symbol(op: Operation) -> Seq<char> {
    match op {
        Operation::Move => "="@,
        Operation::Add => "+="@,
        Operation::Sub => "-="@,
        Operation::Mul => "*="@,
        Operation::Div => "/="@,
        Operation::Mod => "%="@,
        Operation::ShiftLeft => "<<="@,
        Operation::ShiftRight => ">>="@,
        Operation::Xor => "^="@,
        Operation::And => "&="@,
        Operation::Or => "|="@,
        _ => ""@,
    }
}

/// What rendering an instruction yields. `Return` is a literal marker;
/// `Jump` renders as a call, guarded by a zero comparison of the `src`
/// register unless its mode is `Direct`; every other operation renders as
/// destination, symbol, source. `None` for the mode combinations the
/// instruction set never produces: a zero-padded destination or an absent
/// source on an ordinary operation.
pub open spec fn render_spec(i: Instruction) -> Option<Seq<char>> {
    if i.op is Return {
        Some("ret"@)
    } else if i.op is Jump {
        if i.dest_mode is Direct {
            Some("stage2_"@ + hex_digits(i.dest as int) + "(&mut s);"@)
        } else {
            let cmp = match i.dest_mode {
                DestinationMode::AbsoluteAddress => "< 0"@,
                DestinationMode::IndirectRegister => "> 0"@,
                _ => "== 0"@,
            };
            Some(
                "if s.r"@ + dec_digits(i.src as int) + " "@ + cmp + " { stage2_"@ + hex_digits(
                    i.dest as int,
                ) + "(&mut s); }"@,
            )
        }
    } else if i.dest_mode is ZeroPadAbsolute || i.src_mode is Absent {
        None
    } else {
        let dst = match i.dest_mode {
            DestinationMode::AbsoluteAddress => "[0x"@ + hex_digits(i.dest as int) + "]"@,
            DestinationMode::IndirectRegister => "[r"@ + dec_digits(i.dest as int) + "]"@,
            _ => "s.r"@ + dec_digits(i.dest as int),
        };
        let src = match i.src_mode {
            SourceMode::LiteralIndirect => "[0x"@ + hex_digits(i.src as int) + "];"@,
            SourceMode::RegisterIndirect => "s.mem[s.r"@ + dec_digits(i.src as int)
                + " as u32 as usize];"@,
            SourceMode::RegisterDirect => "s.r"@ + dec_digits(i.src as int) + ";"@,
            _ => "0x"@ + hex_digits(i.src as int) + ";"@,
        };
        Some(dst + " "@ + op_symbol(i.op) + " "@ + src)
    }
}

impl Instruction {
    /// Renders this instruction as pseudo-code, per `render_spec`; the
    /// mode combinations the encoding never produces are reported as
    /// `MalformedInstruction`.
    #[verifier::rlimit(60)]
    pub fn render(&self) -> (r: Result<String, Error>)
        ensures
            match render_spec(*self) {
                Some(t) => r matches Ok(out) && out@ == t,
                None => r == Err::<String, Error>(Error::MalformedInstruction),
            },
    {
        let mut out = String::new();
        match self.op {
            Operation::Return => {
                out.append("ret");
                proof {
                    assert(out@ =~= render_spec(*self).unwrap());
                }
                return Ok(out);
            },
            Operation::Jump => {
                match self.dest_mode {
                    DestinationMode::Direct => {
                        out.append("stage2_");
                        push_hex(&mut out, self.dest);
                        out.append("(&mut s);");
                        proof {
                            assert(out@ =~= render_spec(*self).unwrap());
                        }
                        return Ok(out);
                    },
                    _ => {
                        out.append("if s.r");
                        push_dec(&mut out, self.src);
                        out.append(" ");
                        match self.dest_mode {
                            DestinationMode::AbsoluteAddress => out.append("< 0"),
                            DestinationMode::IndirectRegister => out.append("> 0"),
                            _ => out.append("== 0"),
                        }
                        out.append(" { stage2_");
                        push_hex(&mut out, self.dest);
                        out.append("(&mut s); }");
                        proof {
                            assert(out@ =~= render_spec(*self).unwrap());
                        }
                        return Ok(out);
                    },
                }
            },
            _ => {},
        }

        // Destination operand.
        match self.dest_mode {
            DestinationMode::AbsoluteAddress => {
                out.append("[0x");
                push_hex(&mut out, self.dest);
                out.append("]");
            },
            DestinationMode::IndirectRegister => {
                out.append("[r");
                push_dec(&mut out, self.dest);
                out.append("]");
            },
            DestinationMode::Direct => {
                out.append("s.r");
                push_dec(&mut out, self.dest);
            },
            DestinationMode::ZeroPadAbsolute => {
                return Err(Error::MalformedInstruction);
            },
        }

        // Operation symbol.
        out.append(" ");
        match self.op {
            Operation::Move => out.append("="),
            Operation::Add => out.append("+="),
            Operation::Sub => out.append("-="),
            Operation::Mul => out.append("*="),
            Operation::Div => out.append("/="),
            Operation::Mod => out.append("%="),
            Operation::ShiftLeft => out.append("<<="),
            Operation::ShiftRight => out.append(">>="),
            Operation::Xor => out.append("^="),
            Operation::And => out.append("&="),
            _ => out.append("|="),
        }
        out.append(" ");

        // Source operand.
        match self.src_mode {
            SourceMode::LiteralIndirect => {
                out.append("[0x");
                push_hex(&mut out, self.src);
                out.append("];");
            },
            SourceMode::RegisterIndirect => {
                out.append("s.mem[s.r");
                push_dec(&mut out, self.src);
                out.append(" as u32 as usize];");
            },
            SourceMode::RegisterDirect => {
                out.append("s.r");
                push_dec(&mut out, self.src);
                out.append(";");
            },
            SourceMode::Literal => {
                out.append("0x");
                push_hex(&mut out, self.src);
                out.append(";");
            },
            SourceMode::Absent => {
                return Err(Error::MalformedInstruction);
            },
        }
        proof {
            assert(out@ =~= render_spec(*self).unwrap());
        }
        Ok(out)
    }
}

} // verus!
