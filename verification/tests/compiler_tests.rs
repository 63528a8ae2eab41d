use chip8::assembly::CompileError;
use chip8::chip::Chip;
use chip8::compiler::Compiler;

fn assemble(source: &str) -> Result<Vec<u8>, CompileError> {
    let mut compiler = Compiler::new();
    compiler.compile(source)
}

fn opcodes(source: &str) -> Vec<u16> {
    let bytes = assemble(source).unwrap();
    assert_eq!(bytes.len() % 2, 0);
    bytes.chunks(2).map(|b| ((b[0] as u16) << 8) | b[1] as u16).collect()
}

#[test]
fn readme_example() {
    assert_eq!(assemble("jp 0xf23\naddr 1 5\nkey 2").unwrap(), vec![0x1f, 0x23, 0x81, 0x54, 0xf2, 0x0a]);
}

#[test]
fn instruction_table() {
    let cases: [(&str, u16); 34] = [
        ("cls", 0x00E0),
        ("ret", 0x00EE),
        ("jp 0x123", 0x1123),
        ("call 0x456", 0x2456),
        ("se 1 0x22", 0x3122),
        ("sne 2 0x33", 0x4233),
        ("sev 3 4", 0x5340),
        ("ld 5 0x66", 0x6566),
        ("add 7 0x88", 0x7788),
        ("mov 1 2", 0x8120),
        ("or 1 2", 0x8121),
        ("and 1 2", 0x8122),
        ("xor 1 2", 0x8123),
        ("addr 1 2", 0x8124),
        ("sub 1 2", 0x8125),
        ("shr 1 2", 0x8126),
        ("subn 1 2", 0x8127),
        ("shl 1 2", 0x812E),
        ("snev 1 2", 0x9120),
        ("ldi 0xabc", 0xAABC),
        ("jpv 0x300", 0xB300),
        ("rnd 4 0x0f", 0xC40F),
        ("drw 1 2 5", 0xD125),
        ("skp 3", 0xE39E),
        ("sknp 3", 0xE3A1),
        ("gdt 4", 0xF407),
        ("key 4", 0xF40A),
        ("sdt 4", 0xF415),
        ("sst 4", 0xF418),
        ("addi 4", 0xF41E),
        ("font 4", 0xF429),
        ("bcd 4", 0xF433),
        ("stor 4", 0xF455),
        ("read 4", 0xF465),
    ];
    for (source, opcode) in cases.iter() {
        assert_eq!(opcodes(source), vec![*opcode], "{}", source);
    }
}

#[test]
fn decimal_and_hexadecimal_operands() {
    assert_eq!(opcodes("ld 10 255"), vec![0x6AFF]);
    assert_eq!(opcodes("ld 0xa 0xFF"), vec![0x6AFF]);
    assert_eq!(opcodes("jp +16"), vec![0x1010]);
    assert_eq!(opcodes("jp 0x+1F"), vec![0x101F]);
    assert_eq!(opcodes("jp 65535"), vec![0xFFFF]);
    assert_eq!(opcodes("jp 0xffff"), vec![0xFFFF]);
}

#[test]
fn operands_are_not_masked() {
    // The high nibble of a 12-bit operand is or-ed into the opcode.
    assert_eq!(opcodes("jp 0x1f23"), vec![0x1F23]);
}

#[test]
fn labels_resolve_forward_and_backward() {
    let source = "start ld 0 1\nloop add 0 1\nse 0 10\njp loop\njp end\nend jp start";
    assert_eq!(
        opcodes(source),
        vec![0x6001, 0x7001, 0x300A, 0x1202, 0x120A, 0x1200]
    );
}

#[test]
fn label_redefinition_takes_last_address() {
    assert_eq!(opcodes("x cls x cls jp x"), vec![0x00E0, 0x00E0, 0x1202]);
}

#[test]
fn whitespace_of_every_kind_separates_tokens() {
    assert_eq!(opcodes("  ld\t1\r\n0x02\u{3000}cls\u{a0}ret\u{2028}"), vec![0x6102, 0x00E0, 0x00EE]);
    assert_eq!(assemble("").unwrap(), Vec::<u8>::new());
    assert_eq!(assemble(" \n\t ").unwrap(), Vec::<u8>::new());
}

#[test]
fn missing_operand_is_an_error() {
    assert_eq!(assemble("ld 1"), Err(CompileError::MissingOperand));
    assert_eq!(assemble("drw 1 2"), Err(CompileError::MissingOperand));
    assert_eq!(assemble("cls jp"), Err(CompileError::MissingOperand));
}

#[test]
fn unresolved_operand_is_an_error() {
    assert_eq!(assemble("jp nowhere"), Err(CompileError::UnresolvedOperand));
    assert_eq!(assemble("jp 65536"), Err(CompileError::UnresolvedOperand));
    assert_eq!(assemble("jp 0x10000"), Err(CompileError::UnresolvedOperand));
    assert_eq!(assemble("jp -1"), Err(CompileError::UnresolvedOperand));
    assert_eq!(assemble("jp +"), Err(CompileError::UnresolvedOperand));
    assert_eq!(assemble("jp 0x"), Err(CompileError::UnresolvedOperand));
    assert_eq!(assemble("jp 0xg"), Err(CompileError::UnresolvedOperand));
    assert_eq!(assemble("jp 1é"), Err(CompileError::UnresolvedOperand));
}

#[test]
fn first_operand_error_wins() {
    // the first operand is unreadable and the second is missing
    assert_eq!(assemble("ld nowhere"), Err(CompileError::UnresolvedOperand));
}

#[test]
fn too_long_program_is_an_error() {
    let ok = "cls ".repeat(32511);
    assert_eq!(assemble(&ok).unwrap().len(), 2 * 32511);
    let too_long = "cls ".repeat(32512);
    assert_eq!(assemble(&too_long), Err(CompileError::ProgramTooLong));
}

#[test]
fn assembled_program_runs() {
    // V3 = 42; V4 = 3; V3 += V4; store BCD of V3 at 0x300
    let bytes = assemble("ld 3 42 ld 4 3 addr 3 4 ldi 0x300 bcd 3").unwrap();
    let mut chip = Chip::new();
    chip.load_rom_into_memory(&bytes);
    for _ in 0..5 {
        assert!(chip.can_cycle());
        chip.cycle_with_random(0);
    }
    assert_eq!(chip.register(3), 45);
    assert_eq!(chip.memory_byte(0x300), 0);
    assert_eq!(chip.memory_byte(0x301), 4);
    assert_eq!(chip.memory_byte(0x302), 5);
}

#[test]
fn assembled_key_skip_runs() {
    let bytes = assemble("ld 0 5 skp 0 ld 1 1 ld 2 2").unwrap();
    let mut chip = Chip::new();
    chip.load_rom_into_memory(&bytes);
    chip.input[5] = true;
    for _ in 0..3 {
        assert!(chip.can_cycle());
        chip.cycle_with_random(0);
    }
    assert_eq!(chip.register(1), 0);
    assert_eq!(chip.register(2), 2);
}

#[test]
fn compiling_twice_appends() {
    let mut compiler = Compiler::new();
    assert_eq!(compiler.compile("cls").unwrap(), vec![0x00, 0xE0]);
    // the second text starts at the token where the first stopped
    assert_eq!(compiler.compile("ret ret").unwrap(), vec![0x00, 0xE0, 0x00, 0xEE]);
}
