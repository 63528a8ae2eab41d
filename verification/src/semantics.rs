//! The mathematical model of the CHIP-8 machine: its state, how an opcode is
//! decoded, and what each instruction does to the state.
use vstd::prelude::*;

verus! {

/// Address at which programs are loaded and execution starts.
pub const START_ADDRESS: u16 = 0x200;

/// Address of the first byte of the built-in hexadecimal font.
pub const FONT_START_ADDRESS: u16 = 0x50;

/// Number of bytes of the built-in font (16 glyphs of 5 bytes).
pub const FONT_SIZE: u16 = 80;

/// Bytes of addressable memory.
pub const MEMORY_SIZE: usize = 4096;

/// Width and height of the display, in pixels.
pub const DISPLAY_WIDTH: u16 = 64;
pub const DISPLAY_HEIGHT: u16 = 32;

/// Value of a lit pixel in the display memory.
pub const PIXEL_ON: u32 = 0xffff_ffff;

/// The largest program, in bytes, that fits in memory after `START_ADDRESS`.
pub const MAX_ROM_SIZE: usize = 3584;

/// The whole state of the machine, as plain mathematical values.
#[verifier::ext_equal]
pub struct ChipState {
    /// The sixteen general purpose registers V0..VF.
    pub registers: Seq<u8>,
    /// The 4096 bytes of memory.
    pub memory: Seq<u8>,
    pub pc: u16,
    /// Return addresses of the subroutines that are running.
    pub stack: Seq<u16>,
    pub sp: u8,
    pub delay_timer: u8,
    pub sound_timer: u8,
    /// Which of the sixteen keys are held down.
    pub input: Seq<bool>,
    /// The 64 x 32 pixels, row by row.
    pub display: Seq<u32>,
    /// The instruction that was fetched last.
    pub opcode: u16,
    /// The address register I.
    pub index: u16,
    /// The first address after the loaded program.
    pub end: u16,
}

impl ChipState {
    /// The shape every state of a machine has.
    pub open spec fn wf(self) -> bool {
        &&& self.registers.len() == 16
        &&& self.memory.len() == 4096
        &&& self.stack.len() == 16
        &&& self.input.len() == 16
        &&& self.display.len() == 2048
    }
}

/// The built-in font: the glyphs of the hexadecimal digits 0..F, five rows each.
pub open spec fn font_set() -> Seq<u8> {
    seq![
        0xF0u8, 0x90, 0x90, 0x90, 0xF0,
        0x20, 0x60, 0x20, 0x20, 0x70,
        0xF0, 0x10, 0xF0, 0x80, 0xF0,
        0xF0, 0x10, 0xF0, 0x10, 0xF0,
        0x90, 0x90, 0xF0, 0x10, 0x10,
        0xF0, 0x80, 0xF0, 0x10, 0xF0,
        0xF0, 0x80, 0xF0, 0x90, 0xF0,
        0xF0, 0x10, 0x20, 0x40, 0x40,
        0xF0, 0x90, 0xF0, 0x90, 0xF0,
        0xF0, 0x90, 0xF0, 0x10, 0xF0,
        0xF0, 0x90, 0xF0, 0x90, 0x90,
        0xE0, 0x90, 0xE0, 0x90, 0xE0,
        0xF0, 0x80, 0x80, 0x80, 0xF0,
        0xE0, 0x90, 0x90, 0x90, 0xE0,
        0xF0, 0x80, 0xF0, 0x80, 0xF0,
        0xF0, 0x80, 0xF0, 0x80, 0x80,
    ]
}

/// Memory of a fresh machine: the font at `FONT_START_ADDRESS`, zero elsewhere.
pub open spec fn initial_memory() -> Seq<u8> {
    Seq::new(4096, |i: int| if 0x50 <= i < 0xa0 { font_set()[i - 0x50] } else { 0u8 })
}

/// The state of a freshly built machine.
pub open spec fn initial_state() -> ChipState {
    ChipState {
        registers: Seq::new(16, |i: int| 0u8),
        memory: initial_memory(),
        pc: START_ADDRESS,
        stack: Seq::new(16, |i: int| 0u16),
        sp: 0,
        delay_timer: 0,
        sound_timer: 0,
        input: Seq::new(16, |i: int| false),
        display: Seq::new(2048, |i: int| 0u32),
        opcode: 0,
        index: 0,
        end: 0,
    }
}

/// Memory after a program image is loaded: everything from `START_ADDRESS` on is
/// the program followed by zeros.
pub open spec fn memory_with_rom(memory: Seq<u8>, rom: Seq<u8>) -> Seq<u8> {
    Seq::new(
        4096,
        |i: int|
            if i < 0x200 {
                memory[i]
            } else if i < 0x200 + rom.len() {
                rom[i - 0x200]
            } else {
                0u8
            },
    )
}

/// The two bytes at `pc`, read as a big-endian instruction.
pub open spec fn fetch_at(memory: Seq<u8>, pc: u16) -> u16 {
    ((memory[pc as int] as u16) << 8u16) | (memory[pc + 1] as u16)
}

// The fields of an opcode.
pub open spec fn op_x(opcode: u16) -> int {
    ((opcode & 0x0f00) >> 8u16) as int
}

pub open spec fn op_y(opcode: u16) -> int {
    ((opcode & 0x00f0) >> 4u16) as int
}

pub open spec fn op_n(opcode: u16) -> u16 {
    opcode & 0x000f
}

pub open spec fn op_kk(opcode: u16) -> u8 {
    (opcode & 0x00ff) as u8
}

pub open spec fn op_nnn(opcode: u16) -> u16 {
    opcode & 0x0fff
}

/// The key under which an opcode's instruction is looked up: the opcode with its
/// operand fields cleared.
pub open spec fn op_key(opcode: u16) -> u16 {
    let a = (opcode & 0xf000) >> 12u16;
    if a == 0 {
        opcode & 0x00ff
    } else if a == 8 || a == 0xe {
        opcode & 0xf00f
    } else if a == 0xf {
        opcode & 0xf0ff
    } else {
        opcode & 0xf000
    }
}

/// The instructions of the machine.
#[derive(Clone, Copy, Debug, PartialEq, Eq, Structural)]
pub enum Instruction {
    /// 00E0: clear the display.
    Cls,
    /// 00EE: return from a subroutine.
    Ret,
    /// 1nnn: jump to nnn.
    Jp,
    /// 2nnn: call the subroutine at nnn.
    Call,
    /// 3xkk: skip the next instruction if Vx == kk.
    SeByte,
    /// 4xkk: skip the next instruction if Vx != kk.
    SneByte,
    /// 5xy0: skip the next instruction if Vx == Vy.
    SeReg,
    /// 6xkk: Vx = kk.
    LdByte,
    /// 7xkk: Vx = Vx + kk, wrapping.
    AddByte,
    /// 8xy0: Vx = Vy.
    LdReg,
    /// 8xy1: Vx = Vx OR Vy.
    Or,
    /// 8xy2: Vx = Vx AND Vy.
    And,
    /// 8xy3: Vx = Vx XOR Vy.
    Xor,
    /// 8xy4: Vx = Vx + Vy, VF = carry.
    AddReg,
    /// 8xy5: Vx = Vx - Vy, VF = NOT borrow.
    Sub,
    /// 8xy6: Vx = Vx >> 1, VF = the bit shifted out.
    Shr,
    /// 8xy7: Vx = Vy - Vx, VF = NOT borrow.
    Subn,
    /// 8xyE: Vx = Vx << 1, VF = the bit shifted out.
    Shl,
    /// 9xy0: skip the next instruction if Vx != Vy.
    SneReg,
    /// Annn: I = nnn.
    LdI,
    /// Bnnn: jump to V0 + nnn.
    JpV0,
    /// Cxkk: Vx = random byte AND kk.
    Rnd,
    /// Dxyn: draw the n-byte sprite at I at (Vx, Vy), VF = collision.
    Drw,
    /// Ex9E: skip the next instruction if key Vx is down.
    Skp,
    /// ExA1: skip the next instruction if key Vx is up.
    Sknp,
    /// Fx07: Vx = delay timer.
    LdVxDt,
    /// Fx0A: wait for a key and put it in Vx.
    LdKey,
    /// Fx15: delay timer = Vx.
    LdDtVx,
    /// Fx18: sound timer = Vx.
    LdStVx,
    /// Fx1E: I = I + Vx.
    AddI,
    /// Fx29: I = address of the font glyph of digit Vx.
    LdFont,
    /// Fx33: the decimal digits of Vx at I, I+1, I+2.
    Bcd,
    /// Fx55: V0..Vx to memory from I on.
    Store,
    /// Fx65: V0..Vx from memory from I on.
    Load,
}

/// The instruction table: which instruction a key stands for, if any.
pub open spec fn decode_key(key: u16) -> Option<Instruction> {
    if key == 0x00e0 { Some(Instruction::Cls) }
    else if key == 0x00ee { Some(Instruction::Ret) }
    else if key == 0x1000 { Some(Instruction::Jp) }
    else if key == 0x2000 { Some(Instruction::Call) }
    else if key == 0x3000 { Some(Instruction::SeByte) }
    else if key == 0x4000 { Some(Instruction::SneByte) }
    else if key == 0x5000 { Some(Instruction::SeReg) }
    else if key == 0x6000 { Some(Instruction::LdByte) }
    else if key == 0x7000 { Some(Instruction::AddByte) }
    else if key == 0x8000 { Some(Instruction::LdReg) }
    else if key == 0x8001 { Some(Instruction::Or) }
    else if key == 0x8002 { Some(Instruction::And) }
    else if key == 0x8003 { Some(Instruction::Xor) }
    else if key == 0x8004 { Some(Instruction::AddReg) }
    else if key == 0x8005 { Some(Instruction::Sub) }
    else if key == 0x8006 { Some(Instruction::Shr) }
    else if key == 0x8007 { Some(Instruction::Subn) }
    else if key == 0x800e { Some(Instruction::Shl) }
    else if key == 0x9000 { Some(Instruction::SneReg) }
    else if key == 0xa000 { Some(Instruction::LdI) }
    else if key == 0xb000 { Some(Instruction::JpV0) }
    else if key == 0xc000 { Some(Instruction::Rnd) }
    else if key == 0xd000 { Some(Instruction::Drw) }
    else if key == 0xe00e { Some(Instruction::Skp) }
    else if key == 0xe001 { Some(Instruction::Sknp) }
    else if key == 0xf007 { Some(Instruction::LdVxDt) }
    else if key == 0xf00a { Some(Instruction::LdKey) }
    else if key == 0xf015 { Some(Instruction::LdDtVx) }
    else if key == 0xf018 { Some(Instruction::LdStVx) }
    else if key == 0xf01e { Some(Instruction::AddI) }
    else if key == 0xf029 { Some(Instruction::LdFont) }
    else if key == 0xf033 { Some(Instruction::Bcd) }
    else if key == 0xf055 { Some(Instruction::Store) }
    else if key == 0xf065 { Some(Instruction::Load) }
    else { None }
}

/// The instruction an opcode stands for, if any.
pub open spec fn decode(opcode: u16) -> Option<Instruction> {
    decode_key(op_key(opcode))
}

/// Vx of the current opcode.
pub open spec fn vx(s: ChipState) -> u8 {
    s.registers[op_x(s.opcode)]
}

/// Vy of the current opcode.
pub open spec fn vy(s: ChipState) -> u8 {
    s.registers[op_y(s.opcode)]
}

/// Skips the next instruction when `cond` holds.
pub open spec fn skip_if(s: ChipState, cond: bool) -> ChipState {
    if cond { ChipState { pc: (s.pc + 2) as u16, ..s } } else { s }
}

/// Sets Vx of the current opcode.
pub open spec fn set_vx(s: ChipState, v: u8) -> ChipState {
    ChipState { registers: s.registers.update(op_x(s.opcode), v), ..s }
}

pub open spec fn clear_screen(s: ChipState) -> ChipState {
    ChipState { display: Seq::new(2048, |i: int| 0u32), ..s }
}

pub open spec fn return_from(s: ChipState) -> ChipState {
    ChipState { sp: (s.sp - 1) as u8, pc: s.stack[s.sp - 1], ..s }
}

pub open spec fn jp(s: ChipState) -> ChipState {
    ChipState { pc: op_nnn(s.opcode), ..s }
}

pub open spec fn call_sub(s: ChipState) -> ChipState {
    ChipState {
        stack: s.stack.update(s.sp as int, s.pc),
        sp: (s.sp + 1) as u8,
        pc: op_nnn(s.opcode),
        ..s
    }
}

pub open spec fn se_byte(s: ChipState) -> ChipState {
    skip_if(s, vx(s) == op_kk(s.opcode))
}

pub open spec fn sne_byte(s: ChipState) -> ChipState {
    skip_if(s, vx(s) != op_kk(s.opcode))
}

pub open spec fn se_reg(s: ChipState) -> ChipState {
    skip_if(s, vx(s) == vy(s))
}

pub open spec fn ld_byte(s: ChipState) -> ChipState {
    set_vx(s, op_kk(s.opcode))
}

pub open spec fn add_byte(s: ChipState) -> ChipState {
    set_vx(s, ((vx(s) + op_kk(s.opcode)) % 256) as u8)
}

pub open spec fn ld_reg(s: ChipState) -> ChipState {
    set_vx(s, vy(s))
}

pub open spec fn or_reg(s: ChipState) -> ChipState {
    set_vx(s, vx(s) | vy(s))
}

pub open spec fn and_reg(s: ChipState) -> ChipState {
    set_vx(s, vx(s) & vy(s))
}

pub open spec fn xor_reg(s: ChipState) -> ChipState {
    set_vx(s, vx(s) ^ vy(s))
}

/// VF is written first, then Vx: when x is F the result wins.
pub open spec fn add_reg(s: ChipState) -> ChipState {
    let sum = vx(s) + vy(s);
    ChipState {
        registers: s.registers.update(15, if sum > 255 { 1u8 } else { 0u8 }).update(
            op_x(s.opcode),
            (sum % 256) as u8,
        ),
        ..s
    }
}

pub open spec fn sub_reg(s: ChipState) -> ChipState {
    let x = vx(s);
    let y = vy(s);
    ChipState {
        registers: s.registers.update(15, if x > y { 1u8 } else { 0u8 }).update(
            op_x(s.opcode),
            ((x - y + 256) % 256) as u8,
        ),
        ..s
    }
}

/// VF gets the low bit of Vx; then Vx, read again after that, is shifted.
pub open spec fn shift_right(s: ChipState) -> ChipState {
    let r = s.registers.update(15, vx(s) & 1u8);
    ChipState { registers: r.update(op_x(s.opcode), r[op_x(s.opcode)] >> 1u8), ..s }
}

pub open spec fn subn_reg(s: ChipState) -> ChipState {
    let x = vx(s);
    let y = vy(s);
    ChipState {
        registers: s.registers.update(15, if y > x { 1u8 } else { 0u8 }).update(
            op_x(s.opcode),
            ((y - x + 256) % 256) as u8,
        ),
        ..s
    }
}

/// VF gets the high bit of Vx; then Vx, read again after that, is shifted.
pub open spec fn shift_left(s: ChipState) -> ChipState {
    let r = s.registers.update(15, (vx(s) & 0x80u8) >> 7u8);
    ChipState { registers: r.update(op_x(s.opcode), r[op_x(s.opcode)] << 1u8), ..s }
}

pub open spec fn sne_reg(s: ChipState) -> ChipState {
    skip_if(s, vx(s) != vy(s))
}

pub open spec fn ld_i(s: ChipState) -> ChipState {
    ChipState { index: op_nnn(s.opcode), ..s }
}

pub open spec fn jp_v0(s: ChipState) -> ChipState {
    ChipState { pc: (s.registers[0] + op_nnn(s.opcode)) as u16, ..s }
}

pub open spec fn random_and(s: ChipState, random: u8) -> ChipState {
    set_vx(s, random & op_kk(s.opcode))
}

/// Whether bit `col` (counted from the most significant) of a sprite row is set.
pub open spec fn sprite_bit(row_byte: u8, col: int) -> bool {
    row_byte & (0x80u8 >> (col as u8)) != 0
}

/// Column of the sprite that display cell `idx` shows, when drawn at column `xpos`.
pub open spec fn sprite_col(xpos: int, idx: int) -> int {
    (idx % 64 - xpos) % 64
}

/// Row of the sprite that display cell `idx` shows, when drawn at row `ypos`.
pub open spec fn sprite_row(ypos: int, idx: int) -> int {
    (idx / 64 - ypos) % 32
}

/// Whether drawing the current sprite of `s` flips display cell `idx`. The
/// sprite's origin wraps around the screen, and so do its pixels.
pub open spec fn draw_hits(s: ChipState, idx: int) -> bool {
    let xpos = vx(s) % 64;
    let ypos = vy(s) % 32;
    let row = sprite_row(ypos as int, idx);
    let col = sprite_col(xpos as int, idx);
    &&& row < op_n(s.opcode)
    &&& col < 8
    &&& sprite_bit(s.memory[s.index + row], col)
}

/// Whether drawing the current sprite turns off a pixel that was on.
pub open spec fn draw_collides(s: ChipState) -> bool {
    exists|idx: int| 0 <= idx < 2048 && #[trigger] draw_hits(s, idx) && s.display[idx] == PIXEL_ON
}

pub open spec fn drw(s: ChipState) -> ChipState {
    ChipState {
        display: Seq::new(
            2048,
            |idx: int| if draw_hits(s, idx) { s.display[idx] ^ PIXEL_ON } else { s.display[idx] },
        ),
        registers: s.registers.update(15, if draw_collides(s) { 1u8 } else { 0u8 }),
        ..s
    }
}

pub open spec fn skip_pressed(s: ChipState) -> ChipState {
    skip_if(s, s.input[vx(s) as int])
}

pub open spec fn skip_released(s: ChipState) -> ChipState {
    skip_if(s, !s.input[vx(s) as int])
}

pub open spec fn ld_vx_dt(s: ChipState) -> ChipState {
    set_vx(s, s.delay_timer)
}

/// Whether `k` is the lowest-numbered key that is down.
pub open spec fn first_pressed(input: Seq<bool>, k: int) -> bool {
    0 <= k < 16 && input[k] && forall|j: int| 0 <= j < k ==> !input[j]
}

pub open spec fn any_pressed(input: Seq<bool>) -> bool {
    exists|k: int| 0 <= k < 16 && #[trigger] input[k]
}

/// With a key down, the lowest one goes to Vx; with none, the instruction runs
/// again.
pub open spec fn ld_key(s: ChipState) -> ChipState {
    if any_pressed(s.input) {
        set_vx(s, (choose|k: int| first_pressed(s.input, k)) as u8)
    } else {
        ChipState { pc: (s.pc - 2) as u16, ..s }
    }
}

pub open spec fn ld_dt_vx(s: ChipState) -> ChipState {
    ChipState { delay_timer: vx(s), ..s }
}

pub open spec fn ld_st_vx(s: ChipState) -> ChipState {
    ChipState { sound_timer: vx(s), ..s }
}

pub open spec fn add_i(s: ChipState) -> ChipState {
    ChipState { index: (s.index + vx(s)) as u16, ..s }
}

pub open spec fn ld_font(s: ChipState) -> ChipState {
    ChipState { index: (0x50 + vx(s) * 5) as u16, ..s }
}

pub open spec fn bcd_digits(s: ChipState) -> ChipState {
    let v = vx(s);
    let i = s.index as int;
    ChipState {
        memory: s.memory.update(i, v / 100).update(i + 1, (v / 10) % 10).update(i + 2, v % 10),
        ..s
    }
}

pub open spec fn store_regs(s: ChipState) -> ChipState {
    let i = s.index as int;
    let x = op_x(s.opcode);
    ChipState {
        memory: Seq::new(
            4096,
            |a: int| if i <= a <= i + x { s.registers[a - i] } else { s.memory[a] },
        ),
        ..s
    }
}

pub open spec fn load_regs(s: ChipState) -> ChipState {
    let i = s.index as int;
    let x = op_x(s.opcode);
    ChipState {
        registers: Seq::new(16, |r: int| if r <= x { s.memory[i + r] } else { s.registers[r] }),
        ..s
    }
}

/// What running instruction `instr` does to `s`; `random` is the byte that a
/// random draw gives.
pub open spec fn run_instruction(instr: Instruction, s: ChipState, random: u8) -> ChipState {
    match instr {
        Instruction::Cls => clear_screen(s),
        Instruction::Ret => return_from(s),
        Instruction::Jp => jp(s),
        Instruction::Call => call_sub(s),
        Instruction::SeByte => se_byte(s),
        Instruction::SneByte => sne_byte(s),
        Instruction::SeReg => se_reg(s),
        Instruction::LdByte => ld_byte(s),
        Instruction::AddByte => add_byte(s),
        Instruction::LdReg => ld_reg(s),
        Instruction::Or => or_reg(s),
        Instruction::And => and_reg(s),
        Instruction::Xor => xor_reg(s),
        Instruction::AddReg => add_reg(s),
        Instruction::Sub => sub_reg(s),
        Instruction::Shr => shift_right(s),
        Instruction::Subn => subn_reg(s),
        Instruction::Shl => shift_left(s),
        Instruction::SneReg => sne_reg(s),
        Instruction::LdI => ld_i(s),
        Instruction::JpV0 => jp_v0(s),
        Instruction::Rnd => random_and(s, random),
        Instruction::Drw => drw(s),
        Instruction::Skp => skip_pressed(s),
        Instruction::Sknp => skip_released(s),
        Instruction::LdVxDt => ld_vx_dt(s),
        Instruction::LdKey => ld_key(s),
        Instruction::LdDtVx => ld_dt_vx(s),
        Instruction::LdStVx => ld_st_vx(s),
        Instruction::AddI => add_i(s),
        Instruction::LdFont => ld_font(s),
        Instruction::Bcd => bcd_digits(s),
        Instruction::Store => store_regs(s),
        Instruction::Load => load_regs(s),
    }
}

/// The states on which an instruction runs without fault (a stack that over- or
/// underflows, an address or a key number out of range, an address register that
/// overflows).
pub open spec fn instruction_defined(instr: Instruction, s: ChipState) -> bool {
    match instr {
        Instruction::Ret => 1 <= s.sp <= 16,
        Instruction::Call => s.sp < 16,
        Instruction::SeByte | Instruction::SneByte | Instruction::SeReg
        | Instruction::SneReg => s.pc + 2 <= 0xffff,
        Instruction::Drw => op_n(s.opcode) == 0 || s.index + op_n(s.opcode) <= 4096,
        Instruction::Skp | Instruction::Sknp => vx(s) < 16 && s.pc + 2 <= 0xffff,
        Instruction::LdKey => any_pressed(s.input) || s.pc >= 2,
        Instruction::AddI => s.index + vx(s) <= 0xffff,
        Instruction::Bcd => s.index + 2 < 4096,
        Instruction::Store | Instruction::Load => s.index + op_x(s.opcode) < 4096,
        _ => true,
    }
}

/// What executing the current opcode does: its instruction runs, or, for an
/// opcode that stands for none, nothing changes.
pub open spec fn execute(s: ChipState, random: u8) -> ChipState {
    match decode(s.opcode) {
        Some(instr) => run_instruction(instr, s, random),
        None => s,
    }
}

pub open spec fn execute_defined(s: ChipState) -> bool {
    match decode(s.opcode) {
        Some(instr) => instruction_defined(instr, s),
        None => true,
    }
}

/// The state after the opcode at `pc` is fetched and `pc` moves past it.
pub open spec fn fetched(s: ChipState) -> ChipState {
    ChipState { opcode: fetch_at(s.memory, s.pc), pc: (s.pc + 2) as u16, ..s }
}

/// The states on which a cycle runs without fault.
pub open spec fn cycle_defined(s: ChipState) -> bool {
    s.pc + 1 < 4096 && execute_defined(fetched(s))
}

/// One cycle: fetch, advance, execute.
pub open spec fn run_cycle(s: ChipState, random: u8) -> ChipState {
    execute(fetched(s), random)
}

/// One tick of the 60 Hz timers: each counts down to zero and stays there.
pub open spec fn tick(s: ChipState) -> ChipState {
    ChipState {
        delay_timer: if s.delay_timer > 0 { (s.delay_timer - 1) as u8 } else { 0u8 },
        sound_timer: if s.sound_timer > 0 { (s.sound_timer - 1) as u8 } else { 0u8 },
        ..s
    }
}

/// The fields of an opcode are in range.
pub proof fn lemma_opcode_fields(opcode: u16)
    ensures
        0 <= op_x(opcode) < 16,
        0 <= op_y(opcode) < 16,
        op_n(opcode) < 16,
        op_nnn(opcode) < 4096,
{
    assert(((opcode & 0x0f00) >> 8u16) < 16) by (bit_vector);
    assert(((opcode & 0x00f0) >> 4u16) < 16) by (bit_vector);
    assert(opcode & 0x000f < 16) by (bit_vector);
    assert(opcode & 0x0fff < 4096) by (bit_vector);
}

} // verus!
