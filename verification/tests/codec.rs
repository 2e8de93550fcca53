use superr::error::SuperrError;
use superr::instruction::{instruction_parser, Instruction};
use superr::program::Program;

fn all_sample_instructions() -> Vec<Instruction> {
    vec![
        Instruction::Load(0),
        Instruction::Load(255),
        Instruction::Swap(0, 11),
        Instruction::XOR(3, 4),
        Instruction::Inc(0),
        Instruction::Decr(11),
        Instruction::Add(1, 2),
        Instruction::Sub(9, 8),
        Instruction::Put(5),
        Instruction::Jmp(0),
        Instruction::Jmp(16777215),
    ]
}

#[test]
fn text_round_trips_every_instruction() {
    // Round-trip: decoding the canonical text gives the instruction back.
    for i in all_sample_instructions() {
        let text = i.to_text();
        assert_eq!(instruction_parser(text.as_str(), 12), Ok(i), "text: {}", text);
    }
}

#[test]
fn binary_round_trips_every_instruction() {
    // Round-trip: unpacking the packed word gives the instruction back.
    for i in all_sample_instructions() {
        let word = i.encode_word();
        assert_eq!(Instruction::decode_word(word, 12), Ok(i), "word: {}", word);
    }
}

#[test]
fn text_form_is_exact() {
    assert_eq!(Instruction::Load(3).to_text(), "LOAD 3");
    assert_eq!(Instruction::Swap(0, 1).to_text(), "SWAP 0 1");
    assert_eq!(Instruction::XOR(10, 11).to_text(), "XOR 10 11");
    assert_eq!(Instruction::Inc(7).to_text(), "INC 7");
    assert_eq!(Instruction::Decr(0).to_text(), "DECR 0");
    assert_eq!(Instruction::Add(2, 3).to_text(), "ADD 2 3");
    assert_eq!(Instruction::Sub(4, 5).to_text(), "SUB 4 5");
    assert_eq!(Instruction::Put(6).to_text(), "PUT 6");
    assert_eq!(Instruction::Jmp(42).to_text(), "JMP 42");
}

#[test]
fn word_form_is_exact() {
    assert_eq!(Instruction::Load(3).encode_word(), 3);
    assert_eq!(Instruction::Swap(1, 2).encode_word(), 0x100_0000 + 0x1000 + 2);
    assert_eq!(Instruction::Jmp(5).encode_word(), 0x800_0000 + 5);
}

#[test]
fn mnemonics_are_case_insensitive() {
    assert_eq!(instruction_parser("load 7", 12), Ok(Instruction::Load(7)));
    assert_eq!(instruction_parser("sWaP 0 1", 12), Ok(Instruction::Swap(0, 1)));
    assert_eq!(instruction_parser("  JMP   4  ", 12), Ok(Instruction::Jmp(4)));
}

#[test]
fn scenario_malformed_swap_missing_operand() {
    // The line `SWAP 0` is missing its second operand: it must be rejected
    // as malformed and never reach the machine.
    let r = instruction_parser("SWAP 0", 12);
    assert!(matches!(r, Err(SuperrError::MalformedInstruction(_))));
}

#[test]
fn malformed_lines_are_rejected() {
    assert!(matches!(
        instruction_parser("NOP 1", 12),
        Err(SuperrError::MalformedInstruction(_))
    ));
    assert!(matches!(
        instruction_parser("", 12),
        Err(SuperrError::MalformedInstruction(_))
    ));
    assert!(matches!(
        instruction_parser("LOAD 256", 12),
        Err(SuperrError::MalformedInstruction(_))
    ));
    assert!(matches!(
        instruction_parser("SWAP 0 12", 12),
        Err(SuperrError::MalformedInstruction(_))
    ));
    assert!(matches!(
        instruction_parser("INC x", 12),
        Err(SuperrError::MalformedInstruction(_))
    ));
    assert!(matches!(
        instruction_parser("LOAD 3 4", 12),
        Err(SuperrError::MalformedInstruction(_))
    ));
}

#[test]
fn program_text_parses_back() {
    let program = Program {
        instructions: vec![
            Instruction::Load(3),
            Instruction::Swap(0, 1),
            Instruction::Add(2, 0),
        ],
    };
    let text = program.to_text();
    assert_eq!(text, "LOAD 3\nSWAP 0 1\nADD 2 0\n");
    let back = Program::parse_program(text.as_str(), 12).unwrap();
    assert_eq!(back, program);
}

#[test]
fn program_loader_skips_empty_lines_and_keeps_errors() {
    let loaded = Program::parse_program("LOAD 1\n\nINC 0\r\n", 12).unwrap();
    assert_eq!(
        loaded.instructions,
        vec![Instruction::Load(1), Instruction::Inc(0)]
    );

    // Only fully empty lines are skipped: a line of blanks is a bad line,
    // and so is a line that is not an instruction.
    let blank = Program::parse_program("LOAD 1\n  \t\n", 12);
    assert!(matches!(blank, Err(SuperrError::MalformedInstruction(_))));
    let bad = Program::parse_program("LOAD 1\nSWAP 0\n", 12);
    assert!(matches!(bad, Err(SuperrError::MalformedInstruction(_))));
}

#[test]
fn program_bytes_round_trip() {
    let program = Program {
        instructions: vec![
            Instruction::Load(9),
            Instruction::Sub(1, 0),
            Instruction::Jmp(2),
        ],
    };
    let bytes = program.to_bytes();
    assert_eq!(&bytes[0..4], &[0, 0, 0, 3]);
    let back = Program::from_bytes(&bytes, 12).unwrap();
    assert_eq!(back, program);
}

#[test]
fn program_bytes_reject_bad_input() {
    // Too short for the header.
    assert!(Program::from_bytes(&vec![0, 0, 1], 12).is_err());
    // Header promises more words than there are.
    assert!(Program::from_bytes(&vec![0, 0, 0, 1], 12).is_err());
    // Trailing byte after the promised words.
    let mut bytes = Program { instructions: vec![Instruction::Inc(0)] }.to_bytes();
    bytes.push(0);
    assert!(Program::from_bytes(&bytes, 12).is_err());
    // A word with an unknown opcode.
    assert!(Program::from_bytes(&vec![0, 0, 0, 1, 0x90, 0, 0, 0], 12).is_err());
}
