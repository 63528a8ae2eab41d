# chip8

A CHIP-8 virtual machine and a mnemonic assembler for it, written in Verus.
Every instruction of the machine and every step of the assembler is proved
against a mathematical model.

## Layout

- `src/semantics.rs` — the model of the machine: its state (`ChipState`), how an
  opcode is decoded (`decode`), what each instruction does, on which states it
  runs without fault, and what one cycle does (`run_cycle`).
- `src/chip.rs` — the machine (`Chip`): loading a ROM, the fetch-decode-execute
  cycle, the timers; each instruction is a method proved equal to the model.
  `Chip::cycle` draws the byte for `Cxkk` from `rand::random`;
  `Chip::cycle_with_random` takes that byte as an argument.
- `src/assembly.rs` — the model of the assembler: tokens, numbers, labels, the
  opcode of each mnemonic, and the two passes.
- `src/compiler.rs` — the assembler (`Compiler::compile`), proved against that
  model.
- `src/laws.rs` — properties that span instructions, cycles or both halves: a
  call followed by a return resumes after the call, stored registers load back
  unchanged, drawing a sprite twice restores the display, the assembler and the
  decoder agree on every mnemonic, and more.
- `app/main.rs` — the program: a window (winit, pixels) that shows the display
  and feeds the keypad, and `chip8 compile in.txt out.ch8`, which assembles a
  source file into a ROM.

## Instruction set

The mnemonics and their opcodes:
`cls` 00E0, `ret` 00EE, `jp` 1nnn, `call` 2nnn, `se` 3xkk, `sne` 4xkk,
`sev` 5xy0, `ld` 6xkk, `add` 7xkk, `mov`/`or`/`and`/`xor`/`addr`/`sub`/`shr`/`subn`
8xy0..8xy7, `shl` 8xyE, `snev` 9xy0, `ldi` Annn, `jpv` Bnnn, `rnd` Cxkk,
`drw` Dxyn, `skp` Ex9E, `sknp` ExA1, `gdt` Fx07, `key` Fx0A, `sdt` Fx15,
`sst` Fx18, `addi` Fx1E, `font` Fx29, `bcd` Fx33, `stor` Fx55, `read` Fx65.
A token that is neither a mnemonic nor an operand is a label for the address of
the next instruction; operands are decimal, hexadecimal after `0x`, or labels.
