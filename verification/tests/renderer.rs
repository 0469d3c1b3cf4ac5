use fmtvm::Error;
use fmtvm::insn::DestinationMode;
use fmtvm::insn::Instruction;
use fmtvm::insn::Operation;
use fmtvm::insn::SourceMode;

fn inst(
    dest: u32,
    src: u32,
    dest_mode: DestinationMode,
    src_mode: SourceMode,
    op: Operation,
) -> Instruction {
    Instruction { dest, src, dest_mode, src_mode, op }
}

#[test]
fn return_renders_as_marker() {
    let i = inst(0, 0, DestinationMode::AbsoluteAddress, SourceMode::Literal, Operation::Return);
    assert_eq!(i.render().unwrap(), "ret");
}

#[test]
fn unconditional_jump_renders_as_call() {
    let i = inst(0x105, 0, DestinationMode::Direct, SourceMode::Absent, Operation::Jump);
    assert_eq!(i.render().unwrap(), "stage2_105(&mut s);");
}

#[test]
fn conditional_jumps_render_with_their_predicates() {
    let i = inst(0x28d, 2, DestinationMode::AbsoluteAddress, SourceMode::Absent, Operation::Jump);
    assert_eq!(i.render().unwrap(), "if s.r2 < 0 { stage2_28d(&mut s); }");
    let i = inst(0x4ee, 0, DestinationMode::IndirectRegister, SourceMode::Absent, Operation::Jump);
    assert_eq!(i.render().unwrap(), "if s.r0 > 0 { stage2_4ee(&mut s); }");
    let i = inst(0xc8, 4, DestinationMode::ZeroPadAbsolute, SourceMode::Absent, Operation::Jump);
    assert_eq!(i.render().unwrap(), "if s.r4 == 0 { stage2_c8(&mut s); }");
}

#[test]
fn assignments_render_destination_symbol_source() {
    let i = inst(1, 5, DestinationMode::Direct, SourceMode::Literal, Operation::Move);
    assert_eq!(i.render().unwrap(), "s.r1 = 0x5;");
    let i = inst(0x1194, 2, DestinationMode::AbsoluteAddress, SourceMode::RegisterDirect,
        Operation::Add);
    assert_eq!(i.render().unwrap(), "[0x1194] += s.r2;");
    let i = inst(4, 0x1388, DestinationMode::IndirectRegister, SourceMode::LiteralIndirect,
        Operation::Xor);
    assert_eq!(i.render().unwrap(), "[r4] ^= [0x1388];");
    let i = inst(0, 3, DestinationMode::Direct, SourceMode::RegisterIndirect, Operation::Div);
    assert_eq!(i.render().unwrap(), "s.r0 /= s.mem[s.r3 as u32 as usize];");
    let i = inst(2, 0, DestinationMode::Direct, SourceMode::Literal, Operation::ShiftLeft);
    assert_eq!(i.render().unwrap(), "s.r2 <<= 0x0;");
}

#[test]
fn impossible_mode_combinations_fail() {
    let i = inst(1, 2, DestinationMode::ZeroPadAbsolute, SourceMode::Literal, Operation::Move);
    assert_eq!(i.render().unwrap_err(), Error::MalformedInstruction);
    let i = inst(1, 0, DestinationMode::Direct, SourceMode::Absent, Operation::Sub);
    assert_eq!(i.render().unwrap_err(), Error::MalformedInstruction);
}

#[test]
fn decoded_instruction_renders_directly() {
    let (i, _) = Instruction::parse(b"%-4500.1hN").unwrap();
    assert_eq!(i.render().unwrap(), "[0x1194] %= s.mem[s.r1 as u32 as usize];");
}
