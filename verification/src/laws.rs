//! Properties that span instructions or cycles, and the assembler and the
//! machine together.
use vstd::prelude::*;

use crate::assembly::{
    after_statement, assemble_from, compile_opcodes, encode, is_whitespace, labels_from,
    mnemonic_of, operand_count, operands, split_tokens, split_whitespace, token_if_any, xlo, xnkk,
    xnnn, xyzn, CompileError, CompilerState, Mnemonic,
};
use crate::semantics::{
    add_reg, any_pressed, bcd_digits, call_sub, cycle_defined, decode, draw_hits, drw, fetch_at,
    fetched, font_set, instruction_defined, ld_font, lemma_opcode_fields, load_regs, op_kk, op_n,
    op_nnn, op_x, op_y, return_from, run_cycle, store_regs, tick, vx, vy, ChipState, Instruction,
    PIXEL_ON,
};

verus! {

/// A call followed by a return resumes where the call was made: the program
/// counter and the stack pointer come back, and only the stack slot that held
/// the return address differs.
pub proof fn lemma_call_then_return(s: ChipState)
    requires
        s.wf(),
        instruction_defined(Instruction::Call, s),
    ensures
        instruction_defined(Instruction::Ret, call_sub(s)),
        return_from(call_sub(s)) == (ChipState { stack: s.stack.update(s.sp as int, s.pc), ..s }),
{
}

/// Loading registers V0..Vx from where they were just stored gives them back
/// unchanged.
pub proof fn lemma_store_then_load(s: ChipState)
    requires
        s.wf(),
        instruction_defined(Instruction::Store, s),
    ensures
        instruction_defined(Instruction::Load, store_regs(s)),
        load_regs(store_regs(s)).registers == s.registers,
        load_regs(store_regs(s)) == store_regs(s),
{
    assert(load_regs(store_regs(s)).registers =~= s.registers);
}

/// Drawing the same sprite twice at the same place leaves the display as it was
/// (when neither coordinate register is VF, which the first draw overwrites).
pub proof fn lemma_draw_twice_restores_display(s: ChipState)
    requires
        s.wf(),
        instruction_defined(Instruction::Drw, s),
        op_x(s.opcode) != 15,
        op_y(s.opcode) != 15,
    ensures
        instruction_defined(Instruction::Drw, drw(s)),
        drw(drw(s)).display == s.display,
{
    lemma_opcode_fields(s.opcode);
    let t = drw(s);
    assert forall|idx: int| 0 <= idx < 2048 implies #[trigger] draw_hits(t, idx) == draw_hits(
        s,
        idx,
    ) by {
        assert(vx(t) == vx(s));
        assert(vy(t) == vy(s));
    }
    assert forall|idx: int| 0 <= idx < 2048 implies drw(t).display[idx] == s.display[idx] by {
        let d = s.display[idx];
        assert((d ^ PIXEL_ON) ^ PIXEL_ON == d) by (bit_vector);
    }
    assert(drw(t).display =~= s.display);
}

/// The three bytes that `Fx33` writes are the decimal digits of Vx.
pub proof fn lemma_bcd_digits(s: ChipState)
    requires
        s.wf(),
        instruction_defined(Instruction::Bcd, s),
    ensures
        ({
            let m = bcd_digits(s).memory;
            let i = s.index as int;
            &&& m[i] < 10 && m[i + 1] < 10 && m[i + 2] < 10
            &&& m[i] * 100 + m[i + 1] * 10 + m[i + 2] == vx(s)
        }),
{
}

/// With the font in place, `Fx29` points I at the five-byte glyph of the digit
/// in Vx.
pub proof fn lemma_font_glyph(s: ChipState)
    requires
        s.wf(),
        s.memory.subrange(0x50, 0xa0) == font_set(),
        vx(s) < 16,
    ensures
        ({
            let t = ld_font(s);
            t.memory.subrange(t.index as int, t.index + 5) == font_set().subrange(
                5 * vx(s),
                5 * vx(s) + 5,
            )
        }),
{
    let t = ld_font(s);
    let d = vx(s) as int;
    let glyph = t.memory.subrange(t.index as int, t.index + 5);
    assert forall|k: int| 0 <= k < 5 implies #[trigger] glyph[k] == font_set().subrange(
        5 * d,
        5 * d + 5,
    )[k] by {
        assert(s.memory.subrange(0x50, 0xa0)[5 * d + k] == s.memory[0x50 + 5 * d + k]);
    }
    assert(t.memory.subrange(t.index as int, t.index + 5) =~= font_set().subrange(5 * d, 5 * d + 5));
}

/// While no key is down, a cycle on a wait-for-key opcode leaves everything but
/// the opcode register as it was, so the machine waits on that opcode.
pub proof fn lemma_wait_for_key(s: ChipState, random: u8)
    requires
        s.wf(),
        s.pc + 1 < 4096,
        decode(fetch_at(s.memory, s.pc)) == Some(Instruction::LdKey),
        !any_pressed(s.input),
    ensures
        run_cycle(s, random) == (ChipState { opcode: fetch_at(s.memory, s.pc), ..s }),
{
}

/// An opcode that stands for no instruction only moves the program counter past
/// it.
pub proof fn lemma_unknown_opcode_skipped(s: ChipState, random: u8)
    requires
        decode(fetch_at(s.memory, s.pc)) is None,
    ensures
        run_cycle(s, random) == fetched(s),
{
}

/// The random byte matters only to `Cxkk`: any other cycle gives the same state
/// whatever byte is drawn.
pub proof fn lemma_randomness_only_in_rnd(s: ChipState, r1: u8, r2: u8)
    requires
        decode(fetch_at(s.memory, s.pc)) != Some(Instruction::Rnd),
    ensures
        run_cycle(s, r1) == run_cycle(s, r2),
{
}

/// `8xy4` keeps the full sum: Vx + 256 * VF is the sum of the old Vx and Vy
/// (when x is not F, which the sum would overwrite).
pub proof fn lemma_add_carry(s: ChipState)
    requires
        s.wf(),
        op_x(s.opcode) != 15,
    ensures
        ({
            let t = add_reg(s);
            t.registers[op_x(s.opcode)] + 256 * t.registers[15] == vx(s) + vy(s)
        }),
{
    lemma_opcode_fields(s.opcode);
}

/// The instruction that a mnemonic names in the instruction table.
pub open spec fn instruction_of(m: Mnemonic) -> Instruction {
    match m {
        Mnemonic::Cls => Instruction::Cls,
        Mnemonic::Ret => Instruction::Ret,
        Mnemonic::Jp => Instruction::Jp,
        Mnemonic::Call => Instruction::Call,
        Mnemonic::Se => Instruction::SeByte,
        Mnemonic::Sne => Instruction::SneByte,
        Mnemonic::Sev => Instruction::SeReg,
        Mnemonic::Ld => Instruction::LdByte,
        Mnemonic::Add => Instruction::AddByte,
        Mnemonic::Mov => Instruction::LdReg,
        Mnemonic::Or => Instruction::Or,
        Mnemonic::And => Instruction::And,
        Mnemonic::Xor => Instruction::Xor,
        Mnemonic::Addr => Instruction::AddReg,
        Mnemonic::Sub => Instruction::Sub,
        Mnemonic::Shr => Instruction::Shr,
        Mnemonic::Subn => Instruction::Subn,
        Mnemonic::Shl => Instruction::Shl,
        Mnemonic::Snev => Instruction::SneReg,
        Mnemonic::Ldi => Instruction::LdI,
        Mnemonic::Jpv => Instruction::JpV0,
        Mnemonic::Rnd => Instruction::Rnd,
        Mnemonic::Drw => Instruction::Drw,
        Mnemonic::Skp => Instruction::Skp,
        Mnemonic::Sknp => Instruction::Sknp,
        Mnemonic::Gdt => Instruction::LdVxDt,
        Mnemonic::Key => Instruction::LdKey,
        Mnemonic::Sdt => Instruction::LdDtVx,
        Mnemonic::Sst => Instruction::LdStVx,
        Mnemonic::Addi => Instruction::AddI,
        Mnemonic::Font => Instruction::LdFont,
        Mnemonic::Bcd => Instruction::Bcd,
        Mnemonic::Stor => Instruction::Store,
        Mnemonic::Read => Instruction::Load,
    }
}

/// Whether the operands of a mnemonic fit the opcode fields they go to: an
/// address in 12 bits, a byte in 8, a register or a row count in 4.
pub open spec fn operands_fit(m: Mnemonic, p: Seq<u16>) -> bool {
    &&& p.len() == operand_count(m)
    &&& match m {
        Mnemonic::Cls | Mnemonic::Ret => true,
        Mnemonic::Jp | Mnemonic::Call | Mnemonic::Ldi | Mnemonic::Jpv => p[0] < 4096,
        Mnemonic::Se | Mnemonic::Sne | Mnemonic::Ld | Mnemonic::Add | Mnemonic::Rnd => p[0] < 16
            && p[1] < 256,
        Mnemonic::Sev | Mnemonic::Mov | Mnemonic::Or | Mnemonic::And | Mnemonic::Xor
        | Mnemonic::Addr | Mnemonic::Sub | Mnemonic::Shr | Mnemonic::Subn | Mnemonic::Shl
        | Mnemonic::Snev => p[0] < 16 && p[1] < 16,
        Mnemonic::Drw => p[0] < 16 && p[1] < 16 && p[2] < 16,
        _ => p[0] < 16,
    }
}

/// Whether the fields of `opcode` hold the operands `p` of mnemonic `m`.
pub open spec fn fields_hold(m: Mnemonic, p: Seq<u16>, opcode: u16) -> bool {
    match m {
        Mnemonic::Cls | Mnemonic::Ret => true,
        Mnemonic::Jp | Mnemonic::Call | Mnemonic::Ldi | Mnemonic::Jpv => op_nnn(opcode) == p[0],
        Mnemonic::Se | Mnemonic::Sne | Mnemonic::Ld | Mnemonic::Add | Mnemonic::Rnd => op_x(opcode)
            == p[0] && op_kk(opcode) == p[1],
        Mnemonic::Sev | Mnemonic::Mov | Mnemonic::Or | Mnemonic::And | Mnemonic::Xor
        | Mnemonic::Addr | Mnemonic::Sub | Mnemonic::Shr | Mnemonic::Subn | Mnemonic::Shl
        | Mnemonic::Snev => op_x(opcode) == p[0] && op_y(opcode) == p[1],
        Mnemonic::Drw => op_x(opcode) == p[0] && op_y(opcode) == p[1] && op_n(opcode) == p[2],
        _ => op_x(opcode) == p[0],
    }
}

proof fn lemma_shape_xnnn(x: u16, a: u16)
    requires
        x < 16,
        a < 4096,
    ensures
        (xnnn(x, a) & 0xf000) >> 12u16 == x,
        xnnn(x, a) & 0xf000 == x * 4096,
        xnnn(x, a) & 0x0fff == a,
{
    assert((((x << 12u16) | a) & 0xf000) >> 12u16 == x) by (bit_vector)
        requires x < 16, a < 4096;
    assert(((x << 12u16) | a) & 0xf000 == x * 4096) by (bit_vector)
        requires x < 16, a < 4096;
    assert(((x << 12u16) | a) & 0x0fff == a) by (bit_vector)
        requires x < 16, a < 4096;
}

proof fn lemma_shape_xnkk(x: u16, a: u16, b: u16)
    requires
        x < 16,
        a < 16,
        b < 256,
    ensures
        (xnkk(x, a, b) & 0xf000) >> 12u16 == x,
        xnkk(x, a, b) & 0xf000 == x * 4096,
        (xnkk(x, a, b) & 0x0f00) >> 8u16 == a,
        xnkk(x, a, b) & 0x00ff == b,
{
    assert((((x << 12u16) | (a << 8u16) | b) & 0xf000) >> 12u16 == x) by (bit_vector)
        requires x < 16, a < 16, b < 256;
    assert(((x << 12u16) | (a << 8u16) | b) & 0xf000 == x * 4096) by (bit_vector)
        requires x < 16, a < 16, b < 256;
    assert((((x << 12u16) | (a << 8u16) | b) & 0x0f00) >> 8u16 == a) by (bit_vector)
        requires x < 16, a < 16, b < 256;
    assert(((x << 12u16) | (a << 8u16) | b) & 0x00ff == b) by (bit_vector)
        requires x < 16, a < 16, b < 256;
}

proof fn lemma_shape_xyzn(x: u16, a: u16, b: u16, n: u16)
    requires
        x < 16,
        a < 16,
        b < 16,
        n < 16,
    ensures
        (xyzn(x, a, b, n) & 0xf000) >> 12u16 == x,
        xyzn(x, a, b, n) & 0xf000 == x * 4096,
        xyzn(x, a, b, n) & 0xf00f == x * 4096 + n,
        (xyzn(x, a, b, n) & 0x0f00) >> 8u16 == a,
        (xyzn(x, a, b, n) & 0x00f0) >> 4u16 == b,
        xyzn(x, a, b, n) & 0x000f == n,
{
    assert((((x << 12u16) | (a << 8u16) | (b << 4u16) | n) & 0xf000) >> 12u16 == x)
        by (bit_vector)
        requires x < 16, a < 16, b < 16, n < 16;
    assert(((x << 12u16) | (a << 8u16) | (b << 4u16) | n) & 0xf000 == x * 4096) by (bit_vector)
        requires x < 16, a < 16, b < 16, n < 16;
    assert(((x << 12u16) | (a << 8u16) | (b << 4u16) | n) & 0xf00f == x * 4096 + n)
        by (bit_vector)
        requires x < 16, a < 16, b < 16, n < 16;
    assert((((x << 12u16) | (a << 8u16) | (b << 4u16) | n) & 0x0f00) >> 8u16 == a)
        by (bit_vector)
        requires x < 16, a < 16, b < 16, n < 16;
    assert((((x << 12u16) | (a << 8u16) | (b << 4u16) | n) & 0x00f0) >> 4u16 == b)
        by (bit_vector)
        requires x < 16, a < 16, b < 16, n < 16;
    assert(((x << 12u16) | (a << 8u16) | (b << 4u16) | n) & 0x000f == n) by (bit_vector)
        requires x < 16, a < 16, b < 16, n < 16;
}

proof fn lemma_shape_xlo(x: u16, a: u16, lo: u16)
    requires
        x < 16,
        a < 16,
        lo < 256,
    ensures
        (xlo(x, a, lo) & 0xf000) >> 12u16 == x,
        xlo(x, a, lo) & 0xf0ff == x * 4096 + lo,
        xlo(x, a, lo) & 0xf00f == x * 4096 + lo % 16,
        (xlo(x, a, lo) & 0x0f00) >> 8u16 == a,
{
    assert((((x << 12u16) | (a << 8u16) | lo) & 0xf000) >> 12u16 == x) by (bit_vector)
        requires x < 16, a < 16, lo < 256;
    assert(((x << 12u16) | (a << 8u16) | lo) & 0xf0ff == x * 4096 + lo) by (bit_vector)
        requires x < 16, a < 16, lo < 256;
    assert(((x << 12u16) | (a << 8u16) | lo) & 0xf00f == x * 4096 + lo % 16) by (bit_vector)
        requires x < 16, a < 16, lo < 256;
    assert((((x << 12u16) | (a << 8u16) | lo) & 0x0f00) >> 8u16 == a) by (bit_vector)
        requires x < 16, a < 16, lo < 256;
}

/// The assembler and the machine agree: the opcode that a mnemonic assembles to,
/// with operands that fit their fields, decodes to the instruction the mnemonic
/// names, with the operands in its fields.
pub proof fn lemma_assembler_agrees_with_decoder(m: Mnemonic, p: Seq<u16>)
    requires
        operands_fit(m, p),
    ensures
        decode(encode(m, p)) == Some(instruction_of(m)),
        fields_hold(m, p, encode(m, p)),
{
    let op = encode(m, p);
    match m {
        Mnemonic::Cls => {
            assert((0x00e0u16 & 0xf000u16) >> 12u16 == 0 && 0x00e0u16 & 0x00ffu16 == 0x00e0)
                by (bit_vector);
        },
        Mnemonic::Ret => {
            assert((0x00eeu16 & 0xf000u16) >> 12u16 == 0 && 0x00eeu16 & 0x00ffu16 == 0x00ee)
                by (bit_vector);
        },
        Mnemonic::Jp => lemma_shape_xnnn(0x1, p[0]),
        Mnemonic::Call => lemma_shape_xnnn(0x2, p[0]),
        Mnemonic::Ldi => lemma_shape_xnnn(0xa, p[0]),
        Mnemonic::Jpv => lemma_shape_xnnn(0xb, p[0]),
        Mnemonic::Se => lemma_shape_xnkk(0x3, p[0], p[1]),
        Mnemonic::Sne => lemma_shape_xnkk(0x4, p[0], p[1]),
        Mnemonic::Ld => lemma_shape_xnkk(0x6, p[0], p[1]),
        Mnemonic::Add => lemma_shape_xnkk(0x7, p[0], p[1]),
        Mnemonic::Rnd => lemma_shape_xnkk(0xc, p[0], p[1]),
        Mnemonic::Sev => lemma_shape_xyzn(0x5, p[0], p[1], 0x0),
        Mnemonic::Mov => lemma_shape_xyzn(0x8, p[0], p[1], 0x0),
        Mnemonic::Or => lemma_shape_xyzn(0x8, p[0], p[1], 0x1),
        Mnemonic::And => lemma_shape_xyzn(0x8, p[0], p[1], 0x2),
        Mnemonic::Xor => lemma_shape_xyzn(0x8, p[0], p[1], 0x3),
        Mnemonic::Addr => lemma_shape_xyzn(0x8, p[0], p[1], 0x4),
        Mnemonic::Sub => lemma_shape_xyzn(0x8, p[0], p[1], 0x5),
        Mnemonic::Shr => lemma_shape_xyzn(0x8, p[0], p[1], 0x6),
        Mnemonic::Subn => lemma_shape_xyzn(0x8, p[0], p[1], 0x7),
        Mnemonic::Shl => lemma_shape_xyzn(0x8, p[0], p[1], 0xe),
        Mnemonic::Snev => lemma_shape_xyzn(0x9, p[0], p[1], 0x0),
        Mnemonic::Drw => lemma_shape_xyzn(0xd, p[0], p[1], p[2]),
        Mnemonic::Skp => lemma_shape_xlo(0xe, p[0], 0x9e),
        Mnemonic::Sknp => lemma_shape_xlo(0xe, p[0], 0xa1),
        Mnemonic::Gdt => lemma_shape_xlo(0xf, p[0], 0x07),
        Mnemonic::Key => lemma_shape_xlo(0xf, p[0], 0x0a),
        Mnemonic::Sdt => lemma_shape_xlo(0xf, p[0], 0x15),
        Mnemonic::Sst => lemma_shape_xlo(0xf, p[0], 0x18),
        Mnemonic::Addi => lemma_shape_xlo(0xf, p[0], 0x1e),
        Mnemonic::Font => lemma_shape_xlo(0xf, p[0], 0x29),
        Mnemonic::Bcd => lemma_shape_xlo(0xf, p[0], 0x33),
        Mnemonic::Stor => lemma_shape_xlo(0xf, p[0], 0x55),
        Mnemonic::Read => lemma_shape_xlo(0xf, p[0], 0x65),
    }
}

/// The number of instructions (mnemonics with their operands) that a scan of
/// `tokens` from position `i` meets.
pub open spec fn instruction_count(tokens: Seq<Seq<char>>, i: int) -> nat
    decreases tokens.len() - i,
{
    if i < 0 || i >= tokens.len() {
        0
    } else {
        match mnemonic_of(tokens[i]) {
            Some(m) => 1 + instruction_count(
                tokens,
                after_statement(i, operand_count(m), tokens.len()),
            ),
            None => instruction_count(tokens, i + 1),
        }
    }
}

proof fn lemma_labels_fail_iff_too_many(
    tokens: Seq<Seq<char>>,
    i: int,
    pc: int,
    labels: Map<Seq<char>, u16>,
)
    requires
        0 <= pc <= 0xffff,
    ensures
        labels_from(tokens, i, pc, labels) is None <==> pc + 2 * instruction_count(tokens, i)
            > 0xffff,
    decreases tokens.len() - i,
{
    if 0 <= i < tokens.len() {
        match mnemonic_of(tokens[i]) {
            Some(m) => {
                if pc + 2 <= 0xffff {
                    lemma_labels_fail_iff_too_many(
                        tokens,
                        after_statement(i, operand_count(m), tokens.len()),
                        pc + 2,
                        labels,
                    );
                }
            },
            None => {
                lemma_labels_fail_iff_too_many(
                    tokens,
                    i + 1,
                    pc,
                    labels.insert(tokens[i], pc as u16),
                );
            },
        }
    }
}

proof fn lemma_assembled_count(
    tokens: Seq<Seq<char>>,
    i: int,
    labels: Map<Seq<char>, u16>,
    ops: Seq<u16>,
)
    ensures
        assemble_from(tokens, i, labels, ops) matches Ok(r) ==> r.len() == ops.len()
            + instruction_count(tokens, i),
    decreases tokens.len() - i,
{
    if 0 <= i < tokens.len() {
        match mnemonic_of(tokens[i]) {
            Some(m) => {
                if let Ok(p) = operands(tokens, i, operand_count(m), labels) {
                    lemma_assembled_count(
                        tokens,
                        after_statement(i, operand_count(m), tokens.len()),
                        labels,
                        ops.push(encode(m, p)),
                    );
                }
            },
            None => lemma_assembled_count(tokens, i + 1, labels, ops),
        }
    }
}

/// Every instruction of a program becomes one opcode, two bytes: assembling with
/// a fresh scan position gives as many opcodes as the source has instructions,
/// after those already held; and a program is too long exactly when it has more
/// instructions than fit between address 0x200 and 0xFFFF (32511).
pub proof fn lemma_one_opcode_per_instruction(c: CompilerState, source: Seq<char>)
    requires
        c.index == 0,
    ensures
        compile_opcodes(c, source) == Err::<Seq<u16>, CompileError>(CompileError::ProgramTooLong)
            <==> instruction_count(split_whitespace(source), 0) > 32511,
        compile_opcodes(c, source) matches Ok(ops) ==> ops.len() == c.opcodes.len()
            + instruction_count(split_whitespace(source), 0),
{
    let tokens = split_whitespace(source);
    lemma_labels_fail_iff_too_many(tokens, 0, 0x200, c.labels);
    if let Some(labels) = labels_from(tokens, 0, 0x200, c.labels) {
        lemma_assembled_count(tokens, 0, labels, c.opcodes);
        lemma_assembly_never_too_long(tokens, 0, labels, c.opcodes);
    }
}

/// The second pass reports no length error: that is the first pass's.
proof fn lemma_assembly_never_too_long(
    tokens: Seq<Seq<char>>,
    i: int,
    labels: Map<Seq<char>, u16>,
    ops: Seq<u16>,
)
    ensures
        assemble_from(tokens, i, labels, ops) != Err::<Seq<u16>, CompileError>(
            CompileError::ProgramTooLong,
        ),
    decreases tokens.len() - i,
{
    if 0 <= i < tokens.len() {
        match mnemonic_of(tokens[i]) {
            Some(m) => {
                lemma_operands_errors(tokens, i, operand_count(m), labels);
                if let Ok(p) = operands(tokens, i, operand_count(m), labels) {
                    lemma_assembly_never_too_long(
                        tokens,
                        after_statement(i, operand_count(m), tokens.len()),
                        labels,
                        ops.push(encode(m, p)),
                    );
                }
            },
            None => lemma_assembly_never_too_long(tokens, i + 1, labels, ops),
        }
    }
}

proof fn lemma_operands_errors(
    tokens: Seq<Seq<char>>,
    i: int,
    count: nat,
    labels: Map<Seq<char>, u16>,
)
    ensures
        operands(tokens, i, count, labels) != Err::<Seq<u16>, CompileError>(
            CompileError::ProgramTooLong,
        ),
    decreases count,
{
    if count > 0 {
        lemma_operands_errors(tokens, i, (count - 1) as nat, labels);
    }
}

proof fn lemma_split_tokens_clean(s: Seq<char>, cur: Seq<char>)
    requires
        forall|k: int| 0 <= k < cur.len() ==> !is_whitespace(#[trigger] cur[k]),
    ensures
        forall|t: int|
            0 <= t < split_tokens(s, cur).len() ==> {
                let token = #[trigger] split_tokens(s, cur)[t];
                &&& token.len() > 0
                &&& forall|k: int| 0 <= k < token.len() ==> !is_whitespace(#[trigger] token[k])
            },
    decreases s.len(),
{
    let r = split_tokens(s, cur);
    if s.len() == 0 {
        assert(r == token_if_any(cur));
        assert forall|t: int| 0 <= t < r.len() implies (#[trigger] r[t]).len() > 0 && forall|k: int|
            0 <= k < r[t].len() ==> !is_whitespace(#[trigger] r[t][k]) by {
            assert(r[t] == cur);
        }
    } else if is_whitespace(s[0]) {
        let rest = split_tokens(s.drop_first(), seq![]);
        lemma_split_tokens_clean(s.drop_first(), seq![]);
        let first = token_if_any(cur);
        assert(r == first + rest);
        assert forall|t: int| 0 <= t < r.len() implies (#[trigger] r[t]).len() > 0 && forall|k: int|
            0 <= k < r[t].len() ==> !is_whitespace(#[trigger] r[t][k]) by {
            if t < first.len() {
                assert(r[t] == cur);
            } else {
                assert(r[t] == rest[t - first.len()]);
            }
        }
    } else {
        let next = cur.push(s[0]);
        assert forall|k: int| 0 <= k < next.len() implies !is_whitespace(#[trigger] next[k]) by {
            if k < cur.len() {
                assert(next[k] == cur[k]);
            }
        }
        lemma_split_tokens_clean(s.drop_first(), next);
        assert(r == split_tokens(s.drop_first(), next));
    }
}

/// The tokens of a source text are non-empty and hold no whitespace.
pub proof fn lemma_tokens_are_words(source: Seq<char>)
    ensures
        forall|t: int|
            0 <= t < split_whitespace(source).len() ==> {
                let token = #[trigger] split_whitespace(source)[t];
                &&& token.len() > 0
                &&& forall|k: int| 0 <= k < token.len() ==> !is_whitespace(#[trigger] token[k])
            },
{
    lemma_split_tokens_clean(source, seq![]);
}

/// A cycle never changes which keys are down, nor where the loaded program ends:
/// both belong to the host.
pub proof fn lemma_cycle_keeps_keys_and_end(s: ChipState, random: u8)
    ensures
        run_cycle(s, random).input == s.input,
        run_cycle(s, random).end == s.end,
{
}

/// The stack pointer stays within the stack: a cycle that runs without fault
/// from a stack of at most 16 entries leaves at most 16.
pub proof fn lemma_cycle_keeps_stack_bounded(s: ChipState, random: u8)
    requires
        cycle_defined(s),
        s.sp <= 16,
    ensures
        run_cycle(s, random).sp <= 16,
{
}

/// The state after `n` timer ticks.
pub open spec fn ticks(s: ChipState, n: nat) -> ChipState
    decreases n,
{
    if n == 0 { s } else { tick(ticks(s, (n - 1) as nat)) }
}

/// `n` ticks count each timer down by `n`, stopping at zero: a timer never rises
/// and never wraps, and the rest of the state stays as it was.
pub proof fn lemma_ticks_saturate(s: ChipState, n: nat)
    ensures
        ticks(s, n).delay_timer == if s.delay_timer >= n { s.delay_timer - n } else { 0 },
        ticks(s, n).sound_timer == if s.sound_timer >= n { s.sound_timer - n } else { 0 },
        ticks(s, n) == (ChipState {
            delay_timer: ticks(s, n).delay_timer,
            sound_timer: ticks(s, n).sound_timer,
            ..s
        }),
    decreases n,
{
    if n > 0 {
        lemma_ticks_saturate(s, (n - 1) as nat);
    }
}

/// A cycle that runs a call, followed by a cycle that runs a return, resumes at
/// the instruction after the call, with the stack pointer, registers, memory,
/// I, timers and display as they were before the call.
pub proof fn lemma_cycle_call_then_return(s: ChipState, r1: u8, r2: u8)
    requires
        s.wf(),
        cycle_defined(s),
        decode(fetch_at(s.memory, s.pc)) == Some(Instruction::Call),
        cycle_defined(run_cycle(s, r1)),
        decode(fetch_at(run_cycle(s, r1).memory, run_cycle(s, r1).pc)) == Some(Instruction::Ret),
    ensures
        ({
            let t = run_cycle(run_cycle(s, r1), r2);
            &&& t.pc == s.pc + 2
            &&& t.sp == s.sp
            &&& t.registers == s.registers
            &&& t.memory == s.memory
            &&& t.index == s.index
            &&& t.delay_timer == s.delay_timer
            &&& t.sound_timer == s.sound_timer
            &&& t.display == s.display
        }),
{
    lemma_call_then_return(fetched(s));
}

/// Two cycles that run the same draw instruction twice in a row (x and y not F)
/// leave the display as it was.
pub proof fn lemma_cycle_draw_twice(s: ChipState, r1: u8, r2: u8)
    requires
        s.wf(),
        cycle_defined(s),
        decode(fetch_at(s.memory, s.pc)) == Some(Instruction::Drw),
        s.pc + 3 < 4096,
        fetch_at(s.memory, (s.pc + 2) as u16) == fetch_at(s.memory, s.pc),
        op_x(fetch_at(s.memory, s.pc)) != 15,
        op_y(fetch_at(s.memory, s.pc)) != 15,
    ensures
        cycle_defined(run_cycle(s, r1)),
        run_cycle(run_cycle(s, r1), r2).display == s.display,
{
    let f = fetched(s);
    lemma_draw_twice_restores_display(f);
    let t = run_cycle(s, r1);
    assert(t == drw(f));
    assert(fetched(t) == ChipState { pc: (f.pc + 2) as u16, ..drw(f) });
    assert(drw(fetched(t)).display == drw(drw(f)).display) by {
        assert forall|idx: int| 0 <= idx < 2048 implies #[trigger] draw_hits(fetched(t), idx)
            == draw_hits(drw(f), idx) by {}
        assert(drw(fetched(t)).display =~= drw(drw(f)).display);
    }
}

} // verus!
