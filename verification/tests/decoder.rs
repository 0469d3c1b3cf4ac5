use fmtvm::Error;
use fmtvm::insn::DestinationMode;
use fmtvm::insn::Instruction;
use fmtvm::insn::Operation;
use fmtvm::insn::SourceMode;
use fmtvm::insn::parse_int;

#[test]
fn sentinel_zero_byte_yields_return() {
    // The zero byte decodes to Return and consumes exactly one byte,
    // whatever follows.
    let (inst, rest) = Instruction::parse(&[0x00, 0x41, 0x42]).unwrap();
    assert_eq!(inst.op, Operation::Return);
    assert_eq!(rest, &[0x41, 0x42]);
    let (inst, rest) = Instruction::parse(&[0x00]).unwrap();
    assert_eq!(inst.op, Operation::Return);
    assert!(rest.is_empty());
}

#[test]
fn flag_lookahead_zero_dot_selects_direct() {
    // "%0.5M": the 0 is followed by '.', so the destination mode is
    // Direct and the 0 belongs to the width field.
    let (inst, rest) = Instruction::parse(b"%0.5M").unwrap();
    assert_eq!(inst.dest_mode, DestinationMode::Direct);
    assert_eq!(inst.dest, 0);
    assert_eq!(inst.src, 5);
    assert_eq!(inst.op, Operation::Move);
    assert!(rest.is_empty());
}

#[test]
fn flag_lone_zero_selects_zero_pad() {
    // "%05M": the 0 is not followed by '.', so it is the zero-pad flag
    // and the width is 5. One byte of difference from "%0.5M", another
    // destination mode.
    let (inst, rest) = Instruction::parse(b"%05M").unwrap();
    assert_eq!(inst.dest_mode, DestinationMode::ZeroPadAbsolute);
    assert_eq!(inst.dest, 5);
    assert_eq!(inst.op, Operation::Move);
    assert!(rest.is_empty());
}

#[test]
fn full_specifier_with_length_modifier() {
    let (inst, rest) = Instruction::parse(b"%+3.2hhX").unwrap();
    assert_eq!(inst.dest, 3);
    assert_eq!(inst.dest_mode, DestinationMode::IndirectRegister);
    assert_eq!(inst.src, 2);
    assert_eq!(inst.src_mode, SourceMode::LiteralIndirect);
    assert_eq!(inst.op, Operation::Mul);
    assert!(rest.is_empty());
}

#[test]
fn minus_flag_and_single_modifiers() {
    let (inst, _) = Instruction::parse(b"%-4660.7hS").unwrap();
    assert_eq!(inst.dest_mode, DestinationMode::AbsoluteAddress);
    assert_eq!(inst.dest, 4660);
    assert_eq!(inst.src, 7);
    assert_eq!(inst.src_mode, SourceMode::RegisterIndirect);
    assert_eq!(inst.op, Operation::Add);

    let (inst, _) = Instruction::parse(b"%1.2lE").unwrap();
    assert_eq!(inst.src_mode, SourceMode::RegisterDirect);
    assert_eq!(inst.op, Operation::Xor);

    let (inst, _) = Instruction::parse(b"%1.2llV").unwrap();
    assert_eq!(inst.src_mode, SourceMode::Literal);
    assert_eq!(inst.op, Operation::Div);
}

#[test]
fn missing_precision_is_absent_source() {
    let (inst, rest) = Instruction::parse(b"%7C...").unwrap();
    assert_eq!(inst.dest, 7);
    assert_eq!(inst.src, 0);
    assert_eq!(inst.src_mode, SourceMode::Absent);
    assert_eq!(inst.op, Operation::Jump);
    assert_eq!(rest, b"...");
}

#[test]
fn decode_errors() {
    // Empty input, and input exhausted before the conversion character.
    assert_eq!(
        Instruction::parse(b"").unwrap_err(),
        Error::UnexpectedEndOfStream
    );
    assert_eq!(
        Instruction::parse(b"%3").unwrap_err(),
        Error::UnexpectedEndOfStream
    );
    assert_eq!(
        Instruction::parse(b"%3.14").unwrap_err(),
        Error::UnexpectedEndOfStream
    );
    // Wrong marker, and a byte outside the conversion table.
    assert_eq!(
        Instruction::parse(b"x25M").unwrap_err(),
        Error::MalformedInstruction
    );
    assert_eq!(
        Instruction::parse(b"%3Z").unwrap_err(),
        Error::MalformedInstruction
    );
}

#[test]
fn parse_int_reads_leading_digits() {
    let (v, rest) = parse_int(b"123abc");
    assert_eq!(v, 123);
    assert_eq!(rest, b"abc");
    let (v, rest) = parse_int(b"abc");
    assert_eq!(v, 0);
    assert_eq!(rest, b"abc");
    let (v, rest) = parse_int(b"00007");
    assert_eq!(v, 7);
    assert!(rest.is_empty());
    let (v, _) = parse_int(b"");
    assert_eq!(v, 0);
}

#[test]
fn encode_decode_round_trip() {
    let samples = [
        Instruction {
            dest: 3,
            src: 2,
            dest_mode: DestinationMode::IndirectRegister,
            src_mode: SourceMode::LiteralIndirect,
            op: Operation::Mul,
        },
        Instruction {
            dest: 0,
            src: 0,
            dest_mode: DestinationMode::Direct,
            src_mode: SourceMode::Absent,
            op: Operation::Move,
        },
        Instruction {
            dest: 0,
            src: 5,
            dest_mode: DestinationMode::Direct,
            src_mode: SourceMode::Literal,
            op: Operation::Move,
        },
        Instruction {
            dest: 5,
            src: 0,
            dest_mode: DestinationMode::ZeroPadAbsolute,
            src_mode: SourceMode::Absent,
            op: Operation::Move,
        },
        Instruction {
            dest: 0,
            src: 9,
            dest_mode: DestinationMode::Direct,
            src_mode: SourceMode::RegisterDirect,
            op: Operation::Or,
        },
        Instruction {
            dest: 0x28d,
            src: 0,
            dest_mode: DestinationMode::AbsoluteAddress,
            src_mode: SourceMode::Absent,
            op: Operation::Jump,
        },
        Instruction {
            dest: 4294967295,
            src: 4294967295,
            dest_mode: DestinationMode::IndirectRegister,
            src_mode: SourceMode::Literal,
            op: Operation::ShiftRight,
        },
        Instruction {
            dest: 0,
            src: 0,
            dest_mode: DestinationMode::AbsoluteAddress,
            src_mode: SourceMode::Literal,
            op: Operation::Return,
        },
    ];
    for inst in samples.iter() {
        let bytes = inst.encode();
        let (back, rest) = Instruction::parse(&bytes).unwrap();
        assert_eq!(&back, inst);
        assert!(rest.is_empty());
    }
}

#[test]
fn encode_produces_the_expected_text() {
    let inst = Instruction {
        dest: 5,
        src: 0,
        dest_mode: DestinationMode::ZeroPadAbsolute,
        src_mode: SourceMode::Absent,
        op: Operation::Move,
    };
    assert_eq!(inst.encode(), b"%05M".to_vec());
    let inst = Instruction {
        dest: 3,
        src: 2,
        dest_mode: DestinationMode::IndirectRegister,
        src_mode: SourceMode::LiteralIndirect,
        op: Operation::Mul,
    };
    assert_eq!(inst.encode(), b"%+3.2hhX".to_vec());
}
