//! What single instructions and operand readings do, stated in plain arithmetic
//! over their inputs.
use vstd::prelude::*;

use crate::assembly::{digit_value, digits_value, operand_value, parse_u16};
use crate::semantics::{
    add_byte, first_pressed, ld_dt_vx, sub_reg, subn_reg, vy, xor_reg, ld_key, ld_st_vx, ld_vx_dt, lemma_opcode_fields, op_kk, op_x, op_y,
    se_byte, se_reg, shift_left, shift_right, skip_pressed, skip_released, sne_byte, sne_reg, vx,
    ChipState,
};

verus! {

/// The character that writes digit `d` (0..35): `0..9`, then `a..z`.
pub open spec fn digit_char(d: nat) -> char {
    if d < 10 { (0x30 + d) as char } else { (0x61 + d - 10) as char }
}

/// The upper-case character of digit `d` (10..35): `A..Z`.
pub open spec fn upper_digit_char(d: nat) -> char {
    (0x41 + d - 10) as char
}

/// Digit `d` written as `0..9`, `a..z` or `A..Z` has the value `d`, and counts as
/// a digit exactly when `d` is below the radix.
pub proof fn lemma_digit_values(d: nat, radix: nat)
    requires
        d < 36,
        radix <= 36,
    ensures
        digit_value(digit_char(d), radix) == if d < radix { Some(d) } else { None },
        10 <= d ==> digit_value(upper_digit_char(d), radix) == if d < radix {
            Some(d)
        } else {
            None
        },
{
    if d < 10 {
        assert(digit_char(d) as u32 == 0x30 + d);
    } else {
        assert(digit_char(d) as u32 == 0x61 + d - 10);
        assert(upper_digit_char(d) as u32 == 0x41 + d - 10);
    }
}

/// No character outside `0..9`, `a..z` and `A..Z` is a digit.
pub proof fn lemma_non_digits(c: char, radix: nat)
    requires
        radix <= 36,
        !(0x30 <= c as u32 <= 0x39 || 0x61 <= c as u32 <= 0x7a || 0x41 <= c as u32 <= 0x5a),
    ensures
        digit_value(c, radix) is None,
{
}

/// The decimal numeral of `n`: its digits, most significant first.
pub open spec fn decimal_numeral(n: nat) -> Seq<char>
    decreases n,
{
    if n < 10 {
        seq![digit_char(n)]
    } else {
        decimal_numeral(n / 10).push(digit_char(n % 10))
    }
}

proof fn lemma_decimal_numeral_value(n: nat)
    ensures
        digits_value(decimal_numeral(n), 10) == Some(n),
        decimal_numeral(n).len() > 0,
        forall|k: int|
            0 <= k < decimal_numeral(n).len() ==> 0x30 <= #[trigger] (decimal_numeral(n)[k] as u32)
                <= 0x39,
    decreases n,
{
    let s = decimal_numeral(n);
    if n < 10 {
        let c = digit_char(n);
        assert(c as u32 == 0x30 + n);
        assert(s.drop_last() =~= seq![]);
        assert(digit_value(c, 10) == Some(n));
        assert(digits_value(s.drop_last(), 10) == Some(0nat));
        assert(s.last() == c);
        assert(digits_value(s, 10) == Some(n));
    } else {
        lemma_decimal_numeral_value(n / 10);
        let c = digit_char((n % 10) as nat);
        assert(c as u32 == 0x30 + n % 10);
        assert(s.drop_last() =~= decimal_numeral(n / 10));
        assert(s.last() == c);
        assert(digit_value(c, 10) == Some((n % 10) as nat));
        assert(n == (n / 10) * 10 + n % 10);
        assert(digits_value(s, 10) == Some(n));
        assert forall|k: int| 0 <= k < s.len() implies 0x30 <= #[trigger] (s[k] as u32) <= 0x39 by {
            if k < s.len() - 1 {
                assert(s[k] == decimal_numeral(n / 10)[k]);
            }
        }
    }
}

/// A decimal numeral reads as its number: every 16-bit value `n` written in
/// decimal is the operand `n`, whatever labels there are.
pub proof fn lemma_decimal_operand(n: nat, labels: Map<Seq<char>, u16>)
    requires
        n <= 0xffff,
    ensures
        parse_u16(decimal_numeral(n), 10) == Some(n as u16),
        operand_value(decimal_numeral(n), labels) == Some(n as u16),
{
    lemma_decimal_numeral_value(n);
    let s = decimal_numeral(n);
    assert(0x30 <= s[0] as u32 <= 0x39);
    if s.len() >= 2 {
        assert(0x30 <= s[1] as u32 <= 0x39);
    }
    if s == seq!['+'] || s == seq!['-'] {
        assert(s[0] == seq!['+'][0] || s[0] == seq!['-'][0]);
    }
}

/// `8xy6` shifts Vx right by one and puts the bit shifted out in VF: twice the
/// new Vx plus VF is the old Vx (for x other than F).
pub proof fn lemma_shift_right_bit(s: ChipState)
    requires
        s.wf(),
        op_x(s.opcode) != 15,
    ensures
        ({
            let t = shift_right(s);
            &&& t.registers[15] < 2
            &&& t.registers[op_x(s.opcode)] * 2 + t.registers[15] == vx(s)
            &&& forall|r: int| 0 <= r < 16 && r != 15 && r != op_x(s.opcode) ==> t.registers[r]
                == s.registers[r]
        }),
{
    lemma_opcode_fields(s.opcode);
    let v = vx(s);
    assert((v & 1u8) < 2 && (v >> 1u8) * 2 + (v & 1u8) == v) by (bit_vector);
}

/// `8xyE` shifts Vx left by one, dropping the top bit into VF: the new Vx plus
/// 256 times VF is twice the old Vx (for x other than F).
pub proof fn lemma_shift_left_bit(s: ChipState)
    requires
        s.wf(),
        op_x(s.opcode) != 15,
    ensures
        ({
            let t = shift_left(s);
            &&& t.registers[15] < 2
            &&& t.registers[op_x(s.opcode)] + 256 * t.registers[15] == 2 * vx(s)
            &&& forall|r: int| 0 <= r < 16 && r != 15 && r != op_x(s.opcode) ==> t.registers[r]
                == s.registers[r]
        }),
{
    lemma_opcode_fields(s.opcode);
    let v = vx(s);
    assert(((v & 0x80u8) >> 7u8) < 2 && (v << 1u8) + 256 * ((v & 0x80u8) >> 7u8) == 2 * v)
        by (bit_vector);
}

/// The conditional skips advance the program counter by one instruction exactly
/// when their condition holds, and change nothing else: `3xkk` when Vx == kk,
/// `4xkk` when Vx != kk, `5xy0` when Vx == Vy, `9xy0` when Vx != Vy, `Ex9E`
/// when key Vx is down, `ExA1` when it is up.
pub proof fn lemma_skip_conditions(s: ChipState)
    requires
        s.wf(),
        s.pc + 2 <= 0xffff,
    ensures
        ({
            let x = s.registers[op_x(s.opcode)];
            let y = s.registers[op_y(s.opcode)];
            let kk = (s.opcode % 256) as u8;
            &&& se_byte(s) == (ChipState {
                pc: if x == kk { (s.pc + 2) as u16 } else { s.pc },
                ..s
            })
            &&& sne_byte(s) == (ChipState {
                pc: if x != kk { (s.pc + 2) as u16 } else { s.pc },
                ..s
            })
            &&& se_reg(s) == (ChipState { pc: if x == y { (s.pc + 2) as u16 } else { s.pc }, ..s })
            &&& sne_reg(s) == (ChipState {
                pc: if x != y { (s.pc + 2) as u16 } else { s.pc },
                ..s
            })
            &&& x < 16 ==> skip_pressed(s) == (ChipState {
                pc: if s.input[x as int] { (s.pc + 2) as u16 } else { s.pc },
                ..s
            })
            &&& x < 16 ==> skip_released(s) == (ChipState {
                pc: if !s.input[x as int] { (s.pc + 2) as u16 } else { s.pc },
                ..s
            })
        }),
{
    lemma_opcode_fields(s.opcode);
    let op = s.opcode;
    assert((op & 0x00ff) as u8 == (op % 256) as u8) by (bit_vector);
    assert(op_kk(op) == (op % 256) as u8);
}

/// `Fx07` reads the delay timer, whatever the sound timer holds: after `Fx15`
/// sets the delay timer from Vx, `Fx07` with the same x gives Vx back, and
/// `Fx18` in between does not disturb it.
pub proof fn lemma_delay_timer_read(s: ChipState)
    requires
        s.wf(),
    ensures
        ld_vx_dt(s).registers[op_x(s.opcode)] == s.delay_timer,
        ld_vx_dt(ld_dt_vx(s)).registers[op_x(s.opcode)] == vx(s),
        ld_vx_dt(ld_st_vx(s)).registers[op_x(s.opcode)] == s.delay_timer,
        ld_vx_dt(s).delay_timer == s.delay_timer && ld_vx_dt(s).sound_timer == s.sound_timer,
{
    lemma_opcode_fields(s.opcode);
}

/// `Fx0A` with any of the sixteen keys down takes the lowest-numbered key that
/// is down, puts it in Vx and moves on; with no key down it steps back to wait.
pub proof fn lemma_wait_key_takes_lowest(s: ChipState, k: int)
    requires
        s.wf(),
        s.pc >= 2,
    ensures
        0 <= k < 16 && s.input[k] ==> {
            let t = ld_key(s);
            let v = t.registers[op_x(s.opcode)] as int;
            &&& t.pc == s.pc
            &&& v <= k
            &&& s.input[v]
            &&& forall|j: int| 0 <= j < v ==> !s.input[j]
        },
        (forall|j: int| 0 <= j < 16 ==> !s.input[j]) ==> ld_key(s) == (ChipState {
            pc: (s.pc - 2) as u16,
            ..s
        }),
{
    lemma_opcode_fields(s.opcode);
    if 0 <= k < 16 && s.input[k] {
        lowest_pressed_exists(s.input, k);
        let w = choose|w: int| first_pressed(s.input, w);
        assert(first_pressed(s.input, w));
    }
}

/// Some key at or below `k` is the lowest one down.
proof fn lowest_pressed_exists(input: Seq<bool>, k: int)
    requires
        input.len() == 16,
        0 <= k < 16,
        input[k],
    ensures
        exists|w: int| #[trigger] first_pressed(input, w) && w <= k,
    decreases k,
{
    if forall|j: int| 0 <= j < k ==> !input[j] {
        assert(first_pressed(input, k));
    } else {
        let j = choose|j: int| 0 <= j < k && input[j];
        lowest_pressed_exists(input, j);
    }
}

/// `7xkk` adds kk to Vx modulo 256: the new Vx and kk differ from the old Vx by a
/// multiple of 256, and VF is left alone (for x other than F).
pub proof fn lemma_add_byte_mod(s: ChipState)
    requires
        s.wf(),
    ensures
        ({
            let t = add_byte(s);
            &&& (vx(s) + op_kk(s.opcode) - t.registers[op_x(s.opcode)]) % 256 == 0
            &&& op_x(s.opcode) != 15 ==> t.registers[15] == s.registers[15]
        }),
{
    lemma_opcode_fields(s.opcode);
}

/// `8xy5` subtracts modulo 256 and sets VF exactly when Vx > Vy; `8xy7` the same
/// with the operands swapped (for x other than F).
pub proof fn lemma_sub_borrow(s: ChipState)
    requires
        s.wf(),
        op_x(s.opcode) != 15,
    ensures
        ({
            let t = sub_reg(s);
            let r = t.registers[op_x(s.opcode)];
            &&& (r + vy(s) - vx(s)) % 256 == 0
            &&& t.registers[15] == if vx(s) > vy(s) { 1u8 } else { 0u8 }
        }),
        ({
            let t = subn_reg(s);
            let r = t.registers[op_x(s.opcode)];
            &&& (r + vx(s) - vy(s)) % 256 == 0
            &&& t.registers[15] == if vy(s) > vx(s) { 1u8 } else { 0u8 }
        }),
{
    lemma_opcode_fields(s.opcode);
}

/// `8xy3` twice with the same y (and x other than y) gives Vx back.
pub proof fn lemma_xor_twice(s: ChipState)
    requires
        s.wf(),
        op_x(s.opcode) != op_y(s.opcode),
    ensures
        xor_reg(xor_reg(s)).registers == s.registers,
{
    lemma_opcode_fields(s.opcode);
    let a = vx(s);
    let b = vy(s);
    assert((a ^ b) ^ b == a) by (bit_vector);
    assert(xor_reg(xor_reg(s)).registers =~= s.registers);
}

} // verus!
