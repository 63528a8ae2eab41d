//! The CHIP-8 machine: registers, memory, stack, timers, keypad and display, and
//! the fetch-decode-execute cycle over them.
use vstd::prelude::*;

use crate::semantics::{
    add_byte, add_i, add_reg, and_reg, any_pressed, bcd_digits, call_sub, clear_screen,
    cycle_defined, decode, decode_key, draw_collides, draw_hits, drw, execute,
    execute_defined, fetch_at, fetched, first_pressed, font_set, initial_state, instruction_defined,
    jp, jp_v0, ld_byte, ld_dt_vx, ld_font, ld_i, ld_key, ld_reg, ld_st_vx, ld_vx_dt,
    lemma_opcode_fields, load_regs, memory_with_rom, op_key, op_n, op_x, op_y,
    or_reg, random_and, return_from, run_cycle, se_byte, se_reg, shift_left, shift_right,
    skip_pressed, skip_released, sne_byte, sne_reg, sprite_bit, sprite_col, sprite_row,
    store_regs, sub_reg, tick, subn_reg, xor_reg, ChipState, Instruction, FONT_SIZE,
    FONT_START_ADDRESS, MAX_ROM_SIZE, PIXEL_ON, START_ADDRESS,
};

verus! {

/// A CHIP-8 machine.
pub struct Chip {
    registers: [u8; 16],
    memory: [u8; 4096],
    program_counter: u16,
    stack: [u16; 16],
    stack_pointer: u8,
    delay_timer: u8,
    sound_timer: u8,
    /// Which keys of the hexadecimal keypad are held down; the host sets them.
    pub input: [bool; 16],
    /// The 64 x 32 pixels, row by row: `PIXEL_ON` for a lit pixel, 0 for a dark one.
    pub display_memory: [u32; 2048],
    opcode: u16,
    index: u16,
    end: u16,
}

impl View for Chip {
    type V = ChipState;

    closed spec fn view(&self) -> ChipState {
        ChipState {
            registers: self.registers@,
            memory: self.memory@,
            pc: self.program_counter,
            stack: self.stack@,
            sp: self.stack_pointer,
            delay_timer: self.delay_timer,
            sound_timer: self.sound_timer,
            input: self.input@,
            display: self.display_memory@,
            opcode: self.opcode,
            index: self.index,
            end: self.end,
        }
    }
}

/// How the execution of one opcode went.
#[derive(Clone, Copy, Debug, PartialEq, Eq, Structural)]
pub enum Step {
    /// The opcode stood for an instruction, which ran.
    Executed,
    /// The opcode stood for no instruction; nothing changed. `key` is the opcode
    /// with its operand fields cleared, `pc` the program counter at that time.
    UnknownOpcode { opcode: u16, key: u16, pc: u16 },
}

/// What one cycle reports to the host.
#[derive(Clone, Copy, Debug, PartialEq, Eq, Structural)]
pub struct CycleReport {
    pub step: Step,
    /// The program counter has reached the end of the loaded program: a program
    /// is expected to loop before it gets there.
    pub past_end: bool,
}

/// The step that executing the current opcode of `s` reports.
pub open spec fn step_report(s: ChipState) -> Step {
    if decode(s.opcode) is Some {
        Step::Executed
    } else {
        Step::UnknownOpcode { opcode: s.opcode, key: op_key(s.opcode), pc: s.pc }
    }
}

/// Draws a byte by `rand::random::<u8>()`. Any byte may come back: nothing is
/// stated of it.
#[verifier::external_body]
fn random_byte() -> u8 {
    rand::random::<u8>()
}

/// Whether display cell `idx` has been flipped once the first `pos` pixels of the
/// current sprite (row by row, eight to a row) have been drawn.
spec fn drawn_before(s: ChipState, idx: int, pos: int) -> bool {
    let xpos = (s.registers[op_x(s.opcode)] % 64) as int;
    let ypos = (s.registers[op_y(s.opcode)] % 32) as int;
    draw_hits(s, idx) && sprite_row(ypos, idx) * 8 + sprite_col(xpos, idx) < pos
}

/// Whether one of the first `pos` pixels of the current sprite has turned off a
/// lit pixel.
spec fn collided_before(s: ChipState, pos: int) -> bool {
    exists|idx: int| 0 <= idx < 2048 && #[trigger] drawn_before(s, idx, pos) && s.display[idx] == PIXEL_ON
}

/// The display cell that pixel (row, col) of a sprite at (xpos, ypos) lands on,
/// and no other cell, shows that pixel.
proof fn lemma_sprite_cell(xpos: int, ypos: int, row: int, col: int)
    requires
        0 <= xpos < 64,
        0 <= ypos < 32,
        0 <= row < 16,
        0 <= col < 8,
    ensures
        ({
            let idx = ((ypos + row) % 32) * 64 + (xpos + col) % 64;
            &&& 0 <= idx < 2048
            &&& sprite_row(ypos, idx) == row
            &&& sprite_col(xpos, idx) == col
            &&& forall|other: int|
                0 <= other < 2048 && sprite_row(ypos, other) == row && sprite_col(xpos, other)
                    == col ==> other == idx
        }),
{
    let y = (ypos + row) % 32;
    let x = (xpos + col) % 64;
    let idx = y * 64 + x;
    assert(idx / 64 == y && idx % 64 == x) by (nonlinear_arith)
        requires idx == y * 64 + x, 0 <= x < 64, 0 <= y < 32;
    assert forall|other: int|
        0 <= other < 2048 && sprite_row(ypos, other) == row && sprite_col(xpos, other) == col
        implies other == idx by {
        let oy = other / 64;
        let ox = other % 64;
        assert(other == oy * 64 + ox) by (nonlinear_arith)
            requires oy == other / 64, ox == other % 64;
        assert(0 <= oy < 32);
        assert(oy == y);
        assert(ox == x);
    }
}

/// Drawing pixel (row, col) extends what has been drawn by exactly its cell.
proof fn lemma_drawn_step(s: ChipState, row: int, col: int, idx: int, pos: int)
    requires
        s.wf(),
        pos == row * 8 + col,
        0 <= row < op_n(s.opcode),
        0 <= col < 8,
        ({
            let xpos = (s.registers[op_x(s.opcode)] % 64) as int;
            let ypos = (s.registers[op_y(s.opcode)] % 32) as int;
            &&& 0 <= idx < 2048
            &&& sprite_row(ypos, idx) == row
            &&& sprite_col(xpos, idx) == col
            &&& forall|other: int|
                0 <= other < 2048 && sprite_row(ypos, other) == row && sprite_col(xpos, other)
                    == col ==> other == idx
        }),
    ensures
        drawn_before(s, idx, pos + 1) == sprite_bit(s.memory[s.index + row], col),
        !drawn_before(s, idx, pos),
        forall|other: int|
            0 <= other < 2048 && other != idx ==> #[trigger] drawn_before(s, other, pos + 1)
                == drawn_before(s, other, pos),
{
    let xpos = (s.registers[op_x(s.opcode)] % 64) as int;
    let ypos = (s.registers[op_y(s.opcode)] % 32) as int;
    assert forall|other: int|
        0 <= other < 2048 && other != idx implies #[trigger] drawn_before(s, other, pos + 1)
        == drawn_before(s, other, pos) by {
        if draw_hits(s, other) {
            let r = sprite_row(ypos, other);
            let c = sprite_col(xpos, other);
            assert(0 <= c < 8);
            assert(r * 8 + c != row * 8 + col);
        }
    }
}

/// The opcode with its operand fields cleared: the key of its instruction.
fn opcode_key(opcode: u16) -> (key: u16)
    ensures
        key == op_key(opcode),
{
    let a = (opcode & 0xf000) >> 12u16;
    if a == 0 {
        opcode & 0x00ff
    } else if a == 8 || a == 0xe {
        opcode & 0xf00f
    } else if a == 0xf {
        opcode & 0xf0ff
    } else {
        opcode & 0xf000
    }
}

/// The instruction table: the instruction that a key stands for, if any.
fn instruction_for_key(key: u16) -> (instr: Option<Instruction>)
    ensures
        instr == decode_key(key),
{
    match key {
        0x00e0 => Some(Instruction::Cls),
        0x00ee => Some(Instruction::Ret),
        0x1000 => Some(Instruction::Jp),
        0x2000 => Some(Instruction::Call),
        0x3000 => Some(Instruction::SeByte),
        0x4000 => Some(Instruction::SneByte),
        0x5000 => Some(Instruction::SeReg),
        0x6000 => Some(Instruction::LdByte),
        0x7000 => Some(Instruction::AddByte),
        0x8000 => Some(Instruction::LdReg),
        0x8001 => Some(Instruction::Or),
        0x8002 => Some(Instruction::And),
        0x8003 => Some(Instruction::Xor),
        0x8004 => Some(Instruction::AddReg),
        0x8005 => Some(Instruction::Sub),
        0x8006 => Some(Instruction::Shr),
        0x8007 => Some(Instruction::Subn),
        0x800e => Some(Instruction::Shl),
        0x9000 => Some(Instruction::SneReg),
        0xa000 => Some(Instruction::LdI),
        0xb000 => Some(Instruction::JpV0),
        0xc000 => Some(Instruction::Rnd),
        0xd000 => Some(Instruction::Drw),
        0xe00e => Some(Instruction::Skp),
        0xe001 => Some(Instruction::Sknp),
        0xf007 => Some(Instruction::LdVxDt),
        0xf00a => Some(Instruction::LdKey),
        0xf015 => Some(Instruction::LdDtVx),
        0xf018 => Some(Instruction::LdStVx),
        0xf01e => Some(Instruction::AddI),
        0xf029 => Some(Instruction::LdFont),
        0xf033 => Some(Instruction::Bcd),
        0xf055 => Some(Instruction::Store),
        0xf065 => Some(Instruction::Load),
            _ => None,
    }
}

impl Chip {
    /// A machine with the font loaded, the program counter at `START_ADDRESS`,
    /// and everything else zero.
    pub fn new() -> (chip: Self)
        ensures
            chip@ == initial_state(),
    {
        let mut chip = Chip {
            registers: [0; 16],
            memory: [0; 4096],
            program_counter: START_ADDRESS,
            stack: [0; 16],
            stack_pointer: 0,
            delay_timer: 0,
            sound_timer: 0,
            input: [false; 16],
            display_memory: [0; 2048],
            opcode: 0,
            index: 0,
            end: 0,
        };
        chip.load_fontset();
        chip
    }

    /// Loads a program image: memory from `START_ADDRESS` on becomes the image
    /// followed by zeros, and the end of the program is recorded. An image larger
    /// than `MAX_ROM_SIZE` does not fit.
    pub fn load_rom_into_memory(&mut self, rom: &[u8])
        requires
            rom.len() <= MAX_ROM_SIZE,
        ensures
            final(self)@ == (ChipState {
                memory: memory_with_rom(old(self)@.memory, rom@),
                end: (START_ADDRESS + rom.len()) as u16,
                ..old(self)@
            }),
    {
        let ghost s0 = self@;
        let mut a: usize = START_ADDRESS as usize;
        while a < 4096
            invariant
                0x200 <= a <= 4096,
                self@ == (ChipState { memory: self@.memory, ..s0 }),
                self@.memory.len() == 4096,
                forall|i: int| 0 <= i < 0x200 ==> self@.memory[i] == s0.memory[i],
                forall|i: int| 0x200 <= i < a ==> self@.memory[i] == 0,
            decreases 4096 - a,
        {
            self.memory[a] = 0;
            a += 1;
        }
        self.end = START_ADDRESS + rom.len() as u16;
        let mut i: usize = 0;
        while i < rom.len()
            invariant
                i <= rom.len() <= MAX_ROM_SIZE,
                self@ == (ChipState {
                    memory: self@.memory,
                    end: (START_ADDRESS + rom.len()) as u16,
                    ..s0
                }),
                self@.memory.len() == 4096,
                forall|j: int| 0 <= j < 0x200 ==> self@.memory[j] == s0.memory[j],
                forall|j: int| 0x200 <= j < 0x200 + i ==> self@.memory[j] == rom@[j - 0x200],
                forall|j: int| 0x200 + i <= j < 4096 ==> self@.memory[j] == 0,
            decreases rom.len() - i,
        {
            self.memory[START_ADDRESS as usize + i] = rom[i];
            i += 1;
        }
        assert(self@.memory =~= memory_with_rom(s0.memory, rom@));
    }

    /// Copies the font to memory from `FONT_START_ADDRESS` on.
    fn load_fontset(&mut self)
        ensures
            final(self)@ == (ChipState {
                memory: Seq::new(
                    4096,
                    |i: int|
                        if 0x50 <= i < 0xa0 {
                            font_set()[i - 0x50]
                        } else {
                            old(self)@.memory[i]
                        },
                ),
                ..old(self)@
            }),
    {
        let font: [u8; 80] = [
            0xF0, 0x90, 0x90, 0x90, 0xF0,
            0x20, 0x60, 0x20, 0x20, 0x70,
            0xF0, 0x10, 0xF0, 0x80, 0xF0,
            0xF0, 0x10, 0xF0, 0x10, 0xF0,
            0x90, 0x90, 0xF0, 0x10, 0x10,
            0xF0, 0x80, 0xF0, 0x10, 0xF0,
            0xF0, 0x80, 0xF0, 0x90, 0xF0,
            0xF0, 0x10, 0x20, 0x40, 0x40,
            0xF0, 0x90, 0xF0, 0x90, 0xF0,
            0xF0, 0x90, 0xF0, 0x10, 0xF0,
            0xF0, 0x90, 0xF0, 0x90, 0x90,
            0xE0, 0x90, 0xE0, 0x90, 0xE0,
            0xF0, 0x80, 0x80, 0x80, 0xF0,
            0xE0, 0x90, 0x90, 0x90, 0xE0,
            0xF0, 0x80, 0xF0, 0x80, 0xF0,
            0xF0, 0x80, 0xF0, 0x80, 0x80,
        ];
        assert(font@ =~= font_set());
        let ghost s0 = self@;
        let mut i: usize = 0;
        while i < FONT_SIZE as usize
            invariant
                i <= 80,
                font@ == font_set(),
                self@ == (ChipState { memory: self@.memory, ..s0 }),
                self@.memory.len() == 4096,
                forall|j: int| 0 <= j < 4096 && !(0x50 <= j < 0x50 + i) ==> self@.memory[j] == s0.memory[j],
                forall|j: int| 0x50 <= j < 0x50 + i ==> self@.memory[j] == font_set()[j - 0x50],
            decreases 80 - i,
        {
            self.memory[FONT_START_ADDRESS as usize + i] = font[i];
            i += 1;
        }
    }

    fn decrement(&mut self)
        requires
            old(self)@.pc >= 2,
        ensures
            final(self)@ == (ChipState { pc: (old(self)@.pc - 2) as u16, ..old(self)@ }),
    {
        self.program_counter -= 2;
    }

    fn increment(&mut self)
        requires
            old(self)@.pc + 2 <= 0xffff,
        ensures
            final(self)@ == (ChipState { pc: (old(self)@.pc + 2) as u16, ..old(self)@ }),
    {
        self.program_counter += 2;
    }

    /// The x field of the current opcode.
    fn vx(&mut self) -> (x: usize)
        ensures
            x == op_x(old(self)@.opcode),
            x < 16,
            *final(self) == *old(self),
    {
        proof {
            lemma_opcode_fields(self.opcode);
        }
        ((self.opcode & 0x0f00) >> 8u16) as usize
    }

    /// The y field of the current opcode.
    fn vy(&mut self) -> (y: usize)
        ensures
            y == op_y(old(self)@.opcode),
            y < 16,
            *final(self) == *old(self),
    {
        proof {
            lemma_opcode_fields(self.opcode);
        }
        ((self.opcode & 0x00f0) >> 4u16) as usize
    }

    /// 00E0 - CLS: clear the display.
    fn op_00e0(&mut self)
        ensures
            final(self)@ == clear_screen(old(self)@),
    {
        self.display_memory = [0; 2048];
        assert(self@.display =~= Seq::new(2048, |i: int| 0u32));
    }

    /// 00EE - RET: return from a subroutine.
    fn op_00ee(&mut self)
        requires
            instruction_defined(Instruction::Ret, old(self)@),
        ensures
            final(self)@ == return_from(old(self)@),
    {
        self.stack_pointer -= 1;
        self.program_counter = self.stack[self.stack_pointer as usize];
    }

    /// 1nnn - JP addr: jump to nnn.
    fn op_1nnn(&mut self)
        ensures
            final(self)@ == jp(old(self)@),
    {
        self.program_counter = self.opcode & 0x0fff;
    }

    /// 2nnn - CALL addr: push the program counter and jump to nnn.
    fn op_2nnn(&mut self)
        requires
            instruction_defined(Instruction::Call, old(self)@),
        ensures
            final(self)@ == call_sub(old(self)@),
    {
        self.stack[self.stack_pointer as usize] = self.program_counter;
        self.stack_pointer += 1;
        self.program_counter = self.opcode & 0x0fff;
    }

    /// 3xkk - SE Vx, byte: skip the next instruction if Vx == kk.
    fn op_3xkk(&mut self)
        requires
            instruction_defined(Instruction::SeByte, old(self)@),
        ensures
            final(self)@ == se_byte(old(self)@),
    {
        let vx = self.vx();
        let byte = (self.opcode & 0x00ff) as u8;
        if self.registers[vx] == byte {
            self.increment();
        }
    }

    /// 4xkk - SNE Vx, byte: skip the next instruction if Vx != kk.
    fn op_4xkk(&mut self)
        requires
            instruction_defined(Instruction::SneByte, old(self)@),
        ensures
            final(self)@ == sne_byte(old(self)@),
    {
        let vx = self.vx();
        let byte = (self.opcode & 0x00ff) as u8;
        if self.registers[vx] != byte {
            self.increment();
        }
    }

    /// 5xy0 - SE Vx, Vy: skip the next instruction if Vx == Vy.
    fn op_5xy0(&mut self)
        requires
            instruction_defined(Instruction::SeReg, old(self)@),
        ensures
            final(self)@ == se_reg(old(self)@),
    {
        let vx = self.vx();
        let vy = self.vy();
        if self.registers[vx] == self.registers[vy] {
            self.increment();
        }
    }

    /// 6xkk - LD Vx, byte: Vx = kk.
    fn op_6xkk(&mut self)
        ensures
            final(self)@ == ld_byte(old(self)@),
    {
        let vx = self.vx();
        let byte = (self.opcode & 0x00ff) as u8;
        self.registers[vx] = byte;
    }

    /// 7xkk - ADD Vx, byte: Vx = Vx + kk, wrapping.
    fn op_7xkk(&mut self)
        ensures
            final(self)@ == add_byte(old(self)@),
    {
        let vx = self.vx();
        let byte = (self.opcode & 0x00ff) as u8;
        self.registers[vx] = self.registers[vx].wrapping_add(byte);
    }

    /// 8xy0 - LD Vx, Vy: Vx = Vy.
    fn op_8xy0(&mut self)
        ensures
            final(self)@ == ld_reg(old(self)@),
    {
        let vx = self.vx();
        let vy = self.vy();
        self.registers[vx] = self.registers[vy];
    }

    /// 8xy1 - OR Vx, Vy: Vx = Vx OR Vy.
    fn op_8xy1(&mut self)
        ensures
            final(self)@ == or_reg(old(self)@),
    {
        let vx = self.vx();
        let vy = self.vy();
        self.registers[vx] = self.registers[vx] | self.registers[vy];
    }

    /// 8xy2 - AND Vx, Vy: Vx = Vx AND Vy.
    fn op_8xy2(&mut self)
        ensures
            final(self)@ == and_reg(old(self)@),
    {
        let vx = self.vx();
        let vy = self.vy();
        self.registers[vx] = self.registers[vx] & self.registers[vy];
    }

    /// 8xy3 - XOR Vx, Vy: Vx = Vx XOR Vy.
    fn op_8xy3(&mut self)
        ensures
            final(self)@ == xor_reg(old(self)@),
    {
        let vx = self.vx();
        let vy = self.vy();
        self.registers[vx] = self.registers[vx] ^ self.registers[vy];
    }

    /// 8xy4 - ADD Vx, Vy: Vx = Vx + Vy, wrapping; VF = the carry.
    fn op_8xy4(&mut self)
        ensures
            final(self)@ == add_reg(old(self)@),
    {
        let vx = self.vx();
        let vy = self.vy();
        let x = self.registers[vx];
        let y = self.registers[vy];
        let wide = x as u16 + y as u16;
        let carry = wide > 0xff;
        let result = (wide % 256) as u8;
        self.registers[0xf] = if carry { 1 } else { 0 };
        self.registers[vx] = result;
    }

    /// 8xy5 - SUB Vx, Vy: Vx = Vx - Vy, wrapping; VF = NOT borrow (Vx > Vy).
    fn op_8xy5(&mut self)
        ensures
            final(self)@ == sub_reg(old(self)@),
    {
        let vx = self.vx();
        let vy = self.vy();
        let x = self.registers[vx];
        let y = self.registers[vy];
        self.registers[0xf] = if x > y { 1 } else { 0 };
        self.registers[vx] = x.wrapping_sub(y);
    }

    /// 8xy6 - SHR Vx: VF = the low bit of Vx, then Vx = Vx >> 1.
    fn op_8xy6(&mut self)
        ensures
            final(self)@ == shift_right(old(self)@),
    {
        let vx = self.vx();
        self.registers[0xf] = self.registers[vx] & 0x1;
        self.registers[vx] = self.registers[vx] >> 1u8;
    }

    /// 8xy7 - SUBN Vx, Vy: Vx = Vy - Vx, wrapping; VF = NOT borrow (Vy > Vx).
    fn op_8xy7(&mut self)
        ensures
            final(self)@ == subn_reg(old(self)@),
    {
        let vx = self.vx();
        let vy = self.vy();
        let x = self.registers[vx];
        let y = self.registers[vy];
        self.registers[0xf] = if y > x { 1 } else { 0 };
        self.registers[vx] = y.wrapping_sub(x);
    }

    /// 8xyE - SHL Vx: VF = the high bit of Vx, then Vx = Vx << 1.
    fn op_8xye(&mut self)
        ensures
            final(self)@ == shift_left(old(self)@),
    {
        let vx = self.vx();
        let x = self.registers[vx];
        self.registers[0xf] = (x & 0x80) >> 7u8;
        self.registers[vx] = self.registers[vx] << 1u8;
    }

    /// 9xy0 - SNE Vx, Vy: skip the next instruction if Vx != Vy.
    fn op_9xy0(&mut self)
        requires
            instruction_defined(Instruction::SneReg, old(self)@),
        ensures
            final(self)@ == sne_reg(old(self)@),
    {
        let vx = self.vx();
        let vy = self.vy();
        let x = self.registers[vx];
        let y = self.registers[vy];
        if x != y {
            self.increment();
        }
    }

    /// Annn - LD I, addr: I = nnn.
    fn op_annn(&mut self)
        ensures
            final(self)@ == ld_i(old(self)@),
    {
        self.index = self.opcode & 0x0fff;
    }

    /// Bnnn - JP V0, addr: jump to V0 + nnn.
    fn op_bnnn(&mut self)
        ensures
            final(self)@ == jp_v0(old(self)@),
    {
        proof {
            lemma_opcode_fields(self.opcode);
        }
        self.program_counter = self.registers[0x0] as u16 + (self.opcode & 0x0fff);
    }

    /// Cxkk - RND Vx, byte: Vx = `random` AND kk, where `random` is a byte drawn
    /// at random by the caller.
    fn op_cxkk(&mut self, random: u8)
        ensures
            final(self)@ == random_and(old(self)@, random),
    {
        let vx = self.vx();
        let kk = (self.opcode & 0xff) as u8;
        self.registers[vx] = random & kk;
    }

    /// Dxyn - DRW Vx, Vy, nibble: XOR the n-byte sprite stored at I onto the
    /// display at (Vx, Vy), wrapping around the edges; VF = 1 if a lit pixel was
    /// turned off, else 0.
    fn op_dxyn(&mut self)
        requires
            instruction_defined(Instruction::Drw, old(self)@),
        ensures
            final(self)@ == drw(old(self)@),
    {
        let vx = self.vx();
        let vy = self.vy();
        let height = self.opcode & 0x000f;
        let xpos = (self.registers[vx] % 64) as u16;
        let ypos = (self.registers[vy] % 32) as u16;
        let ghost s0 = self@;
        proof {
            lemma_opcode_fields(s0.opcode);
        }
        self.registers[0xf] = 0;
        let mut row: u16 = 0;
        while row < height
            invariant
                s0 == old(self)@,
                s0.wf(),
                instruction_defined(Instruction::Drw, s0),
                height == op_n(s0.opcode),
                height < 16,
                xpos == (s0.registers[op_x(s0.opcode)] % 64),
                ypos == (s0.registers[op_y(s0.opcode)] % 32),
                row <= height,
                self@ == (ChipState {
                    display: self@.display,
                    registers: s0.registers.update(
                        15,
                        if collided_before(s0, row * 8) { 1u8 } else { 0u8 },
                    ),
                    ..s0
                }),
                self@.display.len() == 2048,
                forall|idx: int|
                    0 <= idx < 2048 ==> self@.display[idx] == if drawn_before(s0, idx, row * 8) {
                        s0.display[idx] ^ PIXEL_ON
                    } else {
                        s0.display[idx]
                    },
            decreases height - row,
        {
            let sprite_byte = self.memory[(self.index + row) as usize];
            let mut col: u16 = 0;
            while col < 8
                invariant
                    s0 == old(self)@,
                    s0.wf(),
                    height == op_n(s0.opcode),
                    height < 16,
                    xpos == (s0.registers[op_x(s0.opcode)] % 64),
                    ypos == (s0.registers[op_y(s0.opcode)] % 32),
                    row < height,
                    col <= 8,
                    sprite_byte == s0.memory[s0.index + row],
                    self@ == (ChipState {
                        display: self@.display,
                        registers: s0.registers.update(
                            15,
                            if collided_before(s0, row * 8 + col) { 1u8 } else { 0u8 },
                        ),
                        ..s0
                    }),
                    self@.display.len() == 2048,
                    forall|idx: int|
                        0 <= idx < 2048 ==> self@.display[idx] == if drawn_before(
                            s0,
                            idx,
                            row * 8 + col,
                        ) {
                            s0.display[idx] ^ PIXEL_ON
                        } else {
                            s0.display[idx]
                        },
                decreases 8 - col,
            {
                let ghost before = self@;
                let sprite_pixel = sprite_byte & (0x80u8 >> (col as u8));
                let x = ((xpos + col) % 64) as usize;
                let y = ((ypos + row) % 32) as usize;
                let idx = y * 64 + x;
                proof {
                    lemma_sprite_cell(xpos as int, ypos as int, row as int, col as int);
                    lemma_drawn_step(s0, row as int, col as int, idx as int, row * 8 + col);
                }
                if sprite_pixel != 0 {
                    if self.display_memory[idx] == 0xffffffff {
                        self.registers[0xf] = 1;
                    }
                    self.display_memory[idx] = self.display_memory[idx] ^ 0xffffffff;
                }
                proof {
                    let pos = row * 8 + col;
                    if sprite_pixel != 0 && s0.display[idx as int] == PIXEL_ON {
                        assert(drawn_before(s0, idx as int, pos + 1));
                        assert(collided_before(s0, pos + 1));
                    } else {
                        if collided_before(s0, pos) {
                            let w = choose|w: int|
                                0 <= w < 2048 && #[trigger] drawn_before(s0, w, pos)
                                    && s0.display[w] == PIXEL_ON;
                            assert(drawn_before(s0, w, pos + 1));
                        }
                        if collided_before(s0, pos + 1) {
                            let w = choose|w: int|
                                0 <= w < 2048 && #[trigger] drawn_before(s0, w, pos + 1)
                                    && s0.display[w] == PIXEL_ON;
                            assert(w != idx);
                            assert(drawn_before(s0, w, pos));
                        }
                    }
                    assert(self@.registers =~= s0.registers.update(
                        15,
                        if collided_before(s0, pos + 1) { 1u8 } else { 0u8 },
                    ));
                }
                col += 1;
            }
            row += 1;
        }
        proof {
            let pos = height * 8;
            assert forall|idx: int| 0 <= idx < 2048 implies #[trigger] drawn_before(s0, idx, pos)
                == draw_hits(s0, idx) by {
                let xp = (s0.registers[op_x(s0.opcode)] % 64) as int;
                let yp = (s0.registers[op_y(s0.opcode)] % 32) as int;
                if draw_hits(s0, idx) {
                    assert(sprite_row(yp, idx) * 8 + sprite_col(xp, idx) < pos);
                }
            }
            if draw_collides(s0) {
                let w = choose|w: int| 0 <= w < 2048 && #[trigger] draw_hits(s0, w) && s0.display[w] == PIXEL_ON;
                assert(drawn_before(s0, w, pos));
            }
            if collided_before(s0, pos) {
                let w = choose|w: int| 0 <= w < 2048 && #[trigger] drawn_before(s0, w, pos) && s0.display[w] == PIXEL_ON;
                assert(draw_hits(s0, w));
            }
            assert(self@.display =~= drw(s0).display);
            assert(self@.registers =~= drw(s0).registers);
        }
    }

    /// Ex9E - SKP Vx: skip the next instruction if the key numbered Vx is down.
    fn op_ex9e(&mut self)
        requires
            instruction_defined(Instruction::Skp, old(self)@),
        ensures
            final(self)@ == skip_pressed(old(self)@),
    {
        let vx = self.vx();
        let key = self.registers[vx];
        if self.input[key as usize] {
            self.increment();
        }
    }

    /// ExA1 - SKNP Vx: skip the next instruction if the key numbered Vx is up.
    fn op_exa1(&mut self)
        requires
            instruction_defined(Instruction::Sknp, old(self)@),
        ensures
            final(self)@ == skip_released(old(self)@),
    {
        let vx = self.vx();
        let key = self.registers[vx];
        if !self.input[key as usize] {
            self.increment();
        }
    }

    /// Fx07 - LD Vx, DT: Vx = delay timer.
    fn op_fx07(&mut self)
        ensures
            final(self)@ == ld_vx_dt(old(self)@),
    {
        let vx = self.vx();
        self.registers[vx] = self.delay_timer;
    }

    /// Fx0A - LD Vx, K: put the lowest-numbered key that is down in Vx; with no
    /// key down, step back so that this instruction runs again.
    fn op_fx0a(&mut self)
        requires
            instruction_defined(Instruction::LdKey, old(self)@),
        ensures
            final(self)@ == ld_key(old(self)@),
    {
        let vx = self.vx();
        let mut i: usize = 0;
        while i < 16
            invariant
                i <= 16,
                *self == *old(self),
                vx == op_x(old(self)@.opcode),
                vx < 16,
                forall|j: int| 0 <= j < i ==> !old(self)@.input[j],
            decreases 16 - i,
        {
            if self.input[i] {
                proof {
                    let s = old(self)@;
                    assert(first_pressed(s.input, i as int));
                    assert(any_pressed(s.input));
                    let k = choose|k: int| first_pressed(s.input, k);
                    assert(k == i);
                }
                self.registers[vx] = i as u8;
                return;
            }
            i += 1;
        }
        self.decrement();
    }

    /// Fx15 - LD DT, Vx: delay timer = Vx.
    fn op_fx15(&mut self)
        ensures
            final(self)@ == ld_dt_vx(old(self)@),
    {
        let vx = self.vx();
        self.delay_timer = self.registers[vx];
    }

    /// Fx18 - LD ST, Vx: sound timer = Vx.
    fn op_fx18(&mut self)
        ensures
            final(self)@ == ld_st_vx(old(self)@),
    {
        let vx = self.vx();
        self.sound_timer = self.registers[vx];
    }

    /// Fx1E - ADD I, Vx: I = I + Vx.
    fn op_fx1e(&mut self)
        requires
            instruction_defined(Instruction::AddI, old(self)@),
        ensures
            final(self)@ == add_i(old(self)@),
    {
        let vx = self.vx();
        self.index = self.index + self.registers[vx] as u16;
    }

    /// Fx29 - LD F, Vx: I = address of the font glyph of digit Vx.
    fn op_fx29(&mut self)
        ensures
            final(self)@ == ld_font(old(self)@),
    {
        let vx = self.vx();
        let digit = self.registers[vx] as u16;
        self.index = FONT_START_ADDRESS + digit * 5;
    }

    /// Fx33 - LD B, Vx: the hundreds, tens and ones digits of Vx at I, I+1, I+2.
    fn op_fx33(&mut self)
        requires
            instruction_defined(Instruction::Bcd, old(self)@),
        ensures
            final(self)@ == bcd_digits(old(self)@),
    {
        let vx = self.vx();
        let x = self.registers[vx];
        let i = self.index as usize;
        self.memory[i] = x / 100;
        self.memory[i + 1] = (x / 10) % 10;
        self.memory[i + 2] = x % 10;
    }

    /// Fx55 - LD [I], Vx: V0..Vx to memory from I on.
    fn op_fx55(&mut self)
        requires
            instruction_defined(Instruction::Store, old(self)@),
        ensures
            final(self)@ == store_regs(old(self)@),
    {
        let vx = self.vx();
        let ghost s0 = self@;
        let mut i: usize = 0;
        while i <= vx
            invariant
                s0 == old(self)@,
                vx == op_x(s0.opcode),
                vx < 16,
                s0.index + vx < 4096,
                i <= vx + 1,
                self@ == (ChipState { memory: self@.memory, ..s0 }),
                self@.memory.len() == 4096,
                forall|a: int|
                    0 <= a < 4096 ==> self@.memory[a] == if s0.index <= a < s0.index + i {
                        s0.registers[a - s0.index]
                    } else {
                        s0.memory[a]
                    },
            decreases vx + 1 - i,
        {
            self.memory[self.index as usize + i] = self.registers[i];
            i += 1;
        }
        assert(self@.memory =~= store_regs(s0).memory);
    }

    /// Fx65 - LD Vx, [I]: V0..Vx from memory from I on.
    fn op_fx65(&mut self)
        requires
            instruction_defined(Instruction::Load, old(self)@),
        ensures
            final(self)@ == load_regs(old(self)@),
    {
        let vx = self.vx();
        let ghost s0 = self@;
        let mut i: usize = 0;
        while i <= vx
            invariant
                s0 == old(self)@,
                vx == op_x(s0.opcode),
                vx < 16,
                s0.index + vx < 4096,
                i <= vx + 1,
                self@ == (ChipState { registers: self@.registers, ..s0 }),
                self@.registers.len() == 16,
                forall|r: int|
                    0 <= r < 16 ==> self@.registers[r] == if r < i {
                        s0.memory[s0.index + r]
                    } else {
                        s0.registers[r]
                    },
            decreases vx + 1 - i,
        {
            self.registers[i] = self.memory[self.index as usize + i];
            i += 1;
        }
        assert(self@.registers =~= load_regs(s0).registers);
    }

    /// Runs the instruction of the current opcode; `random` is the byte that
    /// `Cxkk` uses. An opcode that stands for no instruction changes nothing and
    /// is reported.
    fn runop(&mut self, random: u8) -> (step: Step)
        requires
            execute_defined(old(self)@),
        ensures
            final(self)@ == execute(old(self)@, random),
            step == step_report(old(self)@),
    {
        let key = opcode_key(self.opcode);
        match instruction_for_key(key) {
            Some(Instruction::Cls) => self.op_00e0(),
            Some(Instruction::Ret) => self.op_00ee(),
            Some(Instruction::Jp) => self.op_1nnn(),
            Some(Instruction::Call) => self.op_2nnn(),
            Some(Instruction::SeByte) => self.op_3xkk(),
            Some(Instruction::SneByte) => self.op_4xkk(),
            Some(Instruction::SeReg) => self.op_5xy0(),
            Some(Instruction::LdByte) => self.op_6xkk(),
            Some(Instruction::AddByte) => self.op_7xkk(),
            Some(Instruction::LdReg) => self.op_8xy0(),
            Some(Instruction::Or) => self.op_8xy1(),
            Some(Instruction::And) => self.op_8xy2(),
            Some(Instruction::Xor) => self.op_8xy3(),
            Some(Instruction::AddReg) => self.op_8xy4(),
            Some(Instruction::Sub) => self.op_8xy5(),
            Some(Instruction::Shr) => self.op_8xy6(),
            Some(Instruction::Subn) => self.op_8xy7(),
            Some(Instruction::Shl) => self.op_8xye(),
            Some(Instruction::SneReg) => self.op_9xy0(),
            Some(Instruction::LdI) => self.op_annn(),
            Some(Instruction::JpV0) => self.op_bnnn(),
            Some(Instruction::Rnd) => self.op_cxkk(random),
            Some(Instruction::Drw) => self.op_dxyn(),
            Some(Instruction::Skp) => self.op_ex9e(),
            Some(Instruction::Sknp) => self.op_exa1(),
            Some(Instruction::LdVxDt) => self.op_fx07(),
            Some(Instruction::LdKey) => self.op_fx0a(),
            Some(Instruction::LdDtVx) => self.op_fx15(),
            Some(Instruction::LdStVx) => self.op_fx18(),
            Some(Instruction::AddI) => self.op_fx1e(),
            Some(Instruction::LdFont) => self.op_fx29(),
            Some(Instruction::Bcd) => self.op_fx33(),
            Some(Instruction::Store) => self.op_fx55(),
            Some(Instruction::Load) => self.op_fx65(),
            None => {
                return Step::UnknownOpcode {
                    opcode: self.opcode,
                    key,
                    pc: self.program_counter,
                };
            },
        }
        Step::Executed
    }

    /// The two bytes at the program counter, read as a big-endian opcode.
    fn fetch(&self) -> (opcode: u16)
        requires
            self@.pc + 1 < 4096,
        ensures
            opcode == fetch_at(self@.memory, self@.pc),
    {
        let pc = self.program_counter as usize;
        ((self.memory[pc] as u16) << 8u16) | (self.memory[pc + 1] as u16)
    }

    /// Reads the opcode at the program counter into the opcode register.
    fn set_opcode(&mut self)
        requires
            old(self)@.pc + 1 < 4096,
        ensures
            final(self)@ == (ChipState {
                opcode: fetch_at(old(self)@.memory, old(self)@.pc),
                ..old(self)@
            }),
    {
        self.opcode = self.fetch();
    }

    /// Whether a key is down.
    fn any_key_pressed(&self) -> (pressed: bool)
        ensures
            pressed == any_pressed(self@.input),
    {
        let mut i: usize = 0;
        while i < 16
            invariant
                i <= 16,
                forall|j: int| 0 <= j < i ==> !self@.input[j],
            decreases 16 - i,
        {
            if self.input[i] {
                return true;
            }
            i += 1;
        }
        false
    }

    /// Whether `opcode`, run with the program counter at `pc` and the rest of the
    /// state as it is, runs without fault.
    fn opcode_defined(&self, opcode: u16, pc: u16) -> (ok: bool)
        ensures
            ok == execute_defined(ChipState { opcode, pc, ..self@ }),
    {
        proof {
            lemma_opcode_fields(opcode);
        }
        let x = ((opcode & 0x0f00) >> 8u16) as usize;
        match instruction_for_key(opcode_key(opcode)) {
            None => true,
            Some(Instruction::Ret) => 1 <= self.stack_pointer && self.stack_pointer <= 16,
            Some(Instruction::Call) => self.stack_pointer < 16,
            Some(Instruction::SeByte) | Some(Instruction::SneByte) | Some(Instruction::SeReg)
            | Some(Instruction::SneReg) => pc <= 0xfffd,
            Some(Instruction::Drw) => {
                let n = opcode & 0x000f;
                n == 0 || self.index as usize + n as usize <= 4096
            },
            Some(Instruction::Skp) | Some(Instruction::Sknp) => self.registers[x] < 16 && pc
                <= 0xfffd,
            Some(Instruction::LdKey) => self.any_key_pressed() || pc >= 2,
            Some(Instruction::AddI) => self.index as u32 + self.registers[x] as u32 <= 0xffff,
            Some(Instruction::Bcd) => (self.index as usize) + 2 < 4096,
            Some(Instruction::Store) | Some(Instruction::Load) => (self.index as usize) + x < 4096,
            Some(_) => true,
        }
    }

    /// Whether the next cycle runs without fault: the opcode at the program
    /// counter lies inside memory and its instruction is defined on this state.
    pub fn can_cycle(&self) -> (ok: bool)
        ensures
            ok == cycle_defined(self@),
    {
        if self.program_counter >= 4095 {
            return false;
        }
        let opcode = self.fetch();
        self.opcode_defined(opcode, self.program_counter + 2)
    }

    /// One cycle with a given random byte: fetch the opcode at the program
    /// counter, move past it, and execute it. `random` is what `Cxkk` draws.
    pub fn cycle_with_random(&mut self, random: u8) -> (report: CycleReport)
        requires
            cycle_defined(old(self)@),
        ensures
            final(self)@ == run_cycle(old(self)@, random),
            report == (CycleReport {
                step: step_report(fetched(old(self)@)),
                past_end: final(self)@.pc >= final(self)@.end,
            }),
    {
        self.set_opcode();
        self.increment();
        let step = self.runop(random);
        CycleReport { step, past_end: self.program_counter >= self.end }
    }

    /// One cycle: fetch the opcode at the program counter, move past it, and
    /// execute it. A `Cxkk` opcode draws its byte from `rand::random`.
    pub fn cycle(&mut self) -> (report: CycleReport)
        requires
            cycle_defined(old(self)@),
        ensures
            exists|random: u8|
                {
                    &&& final(self)@ == run_cycle(old(self)@, random)
                    &&& report == (CycleReport {
                        step: step_report(fetched(old(self)@)),
                        past_end: final(self)@.pc >= final(self)@.end,
                    })
                },
    {
        let opcode = self.fetch();
        let random = if opcode & 0xf000 == 0xc000 {
            random_byte()
        } else {
            0
        };
        self.cycle_with_random(random)
    }

    /// Counts both timers down by one, stopping at zero.
    pub fn tick_timers(&mut self)
        ensures
            final(self)@ == tick(old(self)@),
    {
        if self.delay_timer > 0 {
            self.delay_timer -= 1;
        }
        if self.sound_timer > 0 {
            self.sound_timer -= 1;
        }
    }

    /// Register Vi.
    pub fn register(&self, i: usize) -> (v: u8)
        requires
            i < 16,
        ensures
            v == self@.registers[i as int],
    {
        self.registers[i]
    }

    /// The byte at `address`.
    pub fn memory_byte(&self, address: usize) -> (b: u8)
        requires
            address < 4096,
        ensures
            b == self@.memory[address as int],
    {
        self.memory[address]
    }

    pub fn program_counter(&self) -> (pc: u16)
        ensures
            pc == self@.pc,
    {
        self.program_counter
    }

    /// The address register I.
    pub fn index_register(&self) -> (i: u16)
        ensures
            i == self@.index,
    {
        self.index
    }

    pub fn stack_pointer(&self) -> (sp: u8)
        ensures
            sp == self@.sp,
    {
        self.stack_pointer
    }

    /// Entry `i` of the return-address stack.
    pub fn stack_entry(&self, i: usize) -> (a: u16)
        requires
            i < 16,
        ensures
            a == self@.stack[i as int],
    {
        self.stack[i]
    }

    pub fn delay_timer(&self) -> (t: u8)
        ensures
            t == self@.delay_timer,
    {
        self.delay_timer
    }

    pub fn sound_timer(&self) -> (t: u8)
        ensures
            t == self@.sound_timer,
    {
        self.sound_timer
    }

    /// The opcode fetched last.
    pub fn opcode(&self) -> (op: u16)
        ensures
            op == self@.opcode,
    {
        self.opcode
    }

    /// The first address after the loaded program.
    pub fn end(&self) -> (e: u16)
        ensures
            e == self@.end,
    {
        self.end
    }
}

impl Default for Chip {
    fn default() -> (chip: Self)
        ensures
            chip@ == initial_state(),
    {
        Chip::new()
    }
}

} // verus!
