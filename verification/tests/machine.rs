use fmtvm::Error;
use fmtvm::executor::Control;
use fmtvm::executor::execute;
use fmtvm::insn::DestinationMode;
use fmtvm::insn::Instruction;
use fmtvm::insn::Operation;
use fmtvm::insn::SourceMode;
use fmtvm::state::State;
use fmtvm::state::log_index;

fn machine(len: usize) -> State {
    let mut s = State::default();
    s.mem = vec![0u8; len];
    s
}

#[test]
fn store_read_round_trip() {
    let mut s = machine(0x100);
    for &(addr, v) in &[
        (0x10, 0x12345678),
        (0x11, -1),
        (0x00, i32::MIN),
        (0xfc, 0x7fffffff),
        (0x33, 0),
    ] {
        s.store(addr, v).unwrap();
        assert_eq!(s.read(addr).unwrap(), v);
    }
}

#[test]
fn store_is_little_endian() {
    let mut s = machine(0x20);
    s.store(0x04, 0x0a0b0c0d).unwrap();
    assert_eq!(&s.mem[0x04..0x08], &[0x0d, 0x0c, 0x0b, 0x0a]);
}

#[test]
fn negative_address_is_out_of_bounds_on_small_memory() {
    // A negative address reinterprets as a huge unsigned offset.
    let mut s = machine(0x20);
    assert_eq!(s.store(-4, 1).unwrap_err(), Error::OutOfBounds);
    assert_eq!(s.read(-4).unwrap_err(), Error::OutOfBounds);
    assert_eq!(s.store(0x1d, 1).unwrap_err(), Error::OutOfBounds);
    assert_eq!(s.read(0x20).unwrap_err(), Error::OutOfBounds);
    // The state is untouched by the failures.
    assert_eq!(s.mem, vec![0u8; 0x20]);
}

#[test]
fn move_literal_sets_register() {
    let mut s = machine(0x10);
    s.r2 = -123456;
    let inst = Instruction {
        dest: 2,
        src: 77,
        dest_mode: DestinationMode::Direct,
        src_mode: SourceMode::Literal,
        op: Operation::Move,
    };
    assert_eq!(execute(&inst, &mut s).unwrap(), Control::Continue);
    assert_eq!(s.r2, 77);
}

#[test]
fn divide_by_zero_leaves_state_unmodified() {
    for op in [Operation::Div, Operation::Mod] {
        let mut s = machine(0x10);
        s.r1 = 41;
        s.r3 = 0;
        let inst = Instruction {
            dest: 1,
            src: 3,
            dest_mode: DestinationMode::Direct,
            src_mode: SourceMode::RegisterDirect,
            op,
        };
        let e = execute(&inst, &mut s).unwrap_err();
        assert_eq!(e, Error::DivisionByZero);
        assert_eq!(s.r1, 41);
        assert_eq!(s.mem, vec![0u8; 0x10]);
    }
}

#[test]
fn jump_zero_pad_is_the_equals_zero_predicate() {
    let inst = Instruction {
        dest: 0x105,
        src: 1,
        dest_mode: DestinationMode::ZeroPadAbsolute,
        src_mode: SourceMode::Absent,
        op: Operation::Jump,
    };
    let mut s = machine(0x10);
    s.r1 = 0;
    assert_eq!(execute(&inst, &mut s).unwrap(), Control::Call(0x105));
    s.r1 = 3;
    assert_eq!(execute(&inst, &mut s).unwrap(), Control::Continue);
    s.r1 = -3;
    assert_eq!(execute(&inst, &mut s).unwrap(), Control::Continue);
}

#[test]
fn jump_predicates_and_unconditional() {
    let mut inst = Instruction {
        dest: 0x4ee,
        src: 0,
        dest_mode: DestinationMode::AbsoluteAddress,
        src_mode: SourceMode::Absent,
        op: Operation::Jump,
    };
    let mut s = machine(0x10);
    s.r0 = -1;
    assert_eq!(execute(&inst, &mut s).unwrap(), Control::Call(0x4ee));
    s.r0 = 1;
    assert_eq!(execute(&inst, &mut s).unwrap(), Control::Continue);
    inst.dest_mode = DestinationMode::IndirectRegister;
    assert_eq!(execute(&inst, &mut s).unwrap(), Control::Call(0x4ee));
    inst.dest_mode = DestinationMode::Direct;
    s.r0 = 0;
    assert_eq!(execute(&inst, &mut s).unwrap(), Control::Call(0x4ee));
}

#[test]
fn read_modify_write_through_memory() {
    // r0 += [0x08]: read-modify-write on an absolute destination.
    let mut s = machine(0x20);
    s.store(0x08, 40).unwrap();
    s.store(0x0c, 2).unwrap();
    let inst = Instruction {
        dest: 0x08,
        src: 0x0c,
        dest_mode: DestinationMode::AbsoluteAddress,
        src_mode: SourceMode::LiteralIndirect,
        op: Operation::Add,
    };
    assert_eq!(execute(&inst, &mut s).unwrap(), Control::Continue);
    assert_eq!(s.read(0x08).unwrap(), 42);
}

#[test]
fn arithmetic_wraps_silently() {
    let mut s = machine(0x10);
    s.r0 = i32::MAX;
    s.r1 = 1;
    let inst = Instruction {
        dest: 0,
        src: 1,
        dest_mode: DestinationMode::Direct,
        src_mode: SourceMode::RegisterDirect,
        op: Operation::Add,
    };
    execute(&inst, &mut s).unwrap();
    assert_eq!(s.r0, i32::MIN);
    // MIN / -1 wraps rather than trapping.
    s.r0 = i32::MIN;
    s.r1 = -1;
    let div = Instruction { op: Operation::Div, ..inst };
    execute(&div, &mut s).unwrap();
    assert_eq!(s.r0, i32::MIN);
}

#[test]
fn absent_source_on_arithmetic_is_malformed() {
    let mut s = machine(0x10);
    let inst = Instruction {
        dest: 0,
        src: 0,
        dest_mode: DestinationMode::Direct,
        src_mode: SourceMode::Absent,
        op: Operation::Add,
    };
    assert_eq!(execute(&inst, &mut s).unwrap_err(), Error::MalformedInstruction);
    // A register index past the file is malformed too.
    let inst = Instruction {
        dest: 5,
        src: 0,
        dest_mode: DestinationMode::Direct,
        src_mode: SourceMode::Literal,
        op: Operation::Move,
    };
    assert_eq!(execute(&inst, &mut s).unwrap_err(), Error::MalformedInstruction);
}

#[test]
fn register_dump_formats_like_the_original() {
    let mut s = State::default();
    s.r0 = 0;
    s.r1 = 1;
    s.r2 = 0x1f;
    s.r3 = -1;
    s.r4 = 0x12345;
    assert_eq!(s.print_regs(), "0000 0001 001f ffffffff 12345");
}

#[test]
fn address_annotations() {
    assert_eq!(log_index(0x1000), "[user input]");
    assert_eq!(log_index(0x1100), "[user input]");
    assert_eq!(log_index(0x11a0), "[first pass]");
    assert_eq!(log_index(0x1388), "[RNG numbers]");
    assert_eq!(log_index(0x1810), "[flag output]");
    assert_eq!(log_index(0x500), "");
    assert_eq!(log_index(-1), "");
}
