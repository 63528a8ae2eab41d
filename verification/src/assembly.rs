//! The mathematical model of the assembler: how source text splits into tokens,
//! how numbers and labels are read, and which opcode each mnemonic becomes.
use vstd::prelude::*;

verus! {

/// The mnemonics of the assembly language, one per instruction.
#[derive(Clone, Copy, Debug, PartialEq, Eq, Structural)]
pub enum Mnemonic {
    Cls,
    Ret,
    Jp,
    Call,
    Se,
    Sne,
    Sev,
    Ld,
    Add,
    Mov,
    Or,
    And,
    Xor,
    Addr,
    Sub,
    Shr,
    Subn,
    Shl,
    Snev,
    Ldi,
    Jpv,
    Rnd,
    Drw,
    Skp,
    Sknp,
    Gdt,
    Key,
    Sdt,
    Sst,
    Addi,
    Font,
    Bcd,
    Stor,
    Read,
}

/// Why a source text does not assemble.
#[derive(Clone, Copy, Debug, PartialEq, Eq, Structural)]
pub enum CompileError {
    /// A mnemonic stands too close to the end of the text for all its operands.
    MissingOperand,
    /// An operand is neither a number that fits in 16 bits nor a label.
    UnresolvedOperand,
    /// The program's instructions run past address 0xFFFF.
    ProgramTooLong,
}

/// The whole state of an assembler, as plain values.
#[verifier::ext_equal]
pub struct CompilerState {
    pub tokens: Seq<Seq<char>>,
    /// The token that the next assembly pass starts at.
    pub index: int,
    /// The opcodes assembled so far.
    pub opcodes: Seq<u16>,
    pub labels: Map<Seq<char>, u16>,
}

/// Whether `c` has the Unicode White_Space property, as `char::is_whitespace`
/// tests it.
pub open spec fn is_whitespace(c: char) -> bool {
    let v = c as u32;
    ||| 0x09 <= v <= 0x0d
    ||| v == 0x20
    ||| v == 0x85
    ||| v == 0xa0
    ||| v == 0x1680
    ||| 0x2000 <= v <= 0x200a
    ||| v == 0x2028
    ||| v == 0x2029
    ||| v == 0x202f
    ||| v == 0x205f
    ||| v == 0x3000
}

/// `cur` as a token of its own, unless it is empty.
pub open spec fn token_if_any(cur: Seq<char>) -> Seq<Seq<char>> {
    if cur.len() == 0 { seq![] } else { seq![cur] }
}

/// The tokens of `s`, where `cur` holds the characters of a token that has begun
/// before `s`.
pub open spec fn split_tokens(s: Seq<char>, cur: Seq<char>) -> Seq<Seq<char>>
    decreases s.len(),
{
    if s.len() == 0 {
        token_if_any(cur)
    } else if is_whitespace(s[0]) {
        token_if_any(cur) + split_tokens(s.drop_first(), seq![])
    } else {
        split_tokens(s.drop_first(), cur.push(s[0]))
    }
}

/// The maximal runs of non-whitespace characters of `s`, in order.
pub open spec fn split_whitespace(s: Seq<char>) -> Seq<Seq<char>> {
    split_tokens(s, seq![])
}

/// The mnemonic that a token spells, if any.
pub open spec fn mnemonic_of(t: Seq<char>) -> Option<Mnemonic> {
    if t == seq!['c', 'l', 's'] { Some(Mnemonic::Cls) }
    else if t == seq!['r', 'e', 't'] { Some(Mnemonic::Ret) }
    else if t == seq!['j', 'p'] { Some(Mnemonic::Jp) }
    else if t == seq!['c', 'a', 'l', 'l'] { Some(Mnemonic::Call) }
    else if t == seq!['s', 'e'] { Some(Mnemonic::Se) }
    else if t == seq!['s', 'n', 'e'] { Some(Mnemonic::Sne) }
    else if t == seq!['s', 'e', 'v'] { Some(Mnemonic::Sev) }
    else if t == seq!['l', 'd'] { Some(Mnemonic::Ld) }
    else if t == seq!['a', 'd', 'd'] { Some(Mnemonic::Add) }
    else if t == seq!['m', 'o', 'v'] { Some(Mnemonic::Mov) }
    else if t == seq!['o', 'r'] { Some(Mnemonic::Or) }
    else if t == seq!['a', 'n', 'd'] { Some(Mnemonic::And) }
    else if t == seq!['x', 'o', 'r'] { Some(Mnemonic::Xor) }
    else if t == seq!['a', 'd', 'd', 'r'] { Some(Mnemonic::Addr) }
    else if t == seq!['s', 'u', 'b'] { Some(Mnemonic::Sub) }
    else if t == seq!['s', 'h', 'r'] { Some(Mnemonic::Shr) }
    else if t == seq!['s', 'u', 'b', 'n'] { Some(Mnemonic::Subn) }
    else if t == seq!['s', 'h', 'l'] { Some(Mnemonic::Shl) }
    else if t == seq!['s', 'n', 'e', 'v'] { Some(Mnemonic::Snev) }
    else if t == seq!['l', 'd', 'i'] { Some(Mnemonic::Ldi) }
    else if t == seq!['j', 'p', 'v'] { Some(Mnemonic::Jpv) }
    else if t == seq!['r', 'n', 'd'] { Some(Mnemonic::Rnd) }
    else if t == seq!['d', 'r', 'w'] { Some(Mnemonic::Drw) }
    else if t == seq!['s', 'k', 'p'] { Some(Mnemonic::Skp) }
    else if t == seq!['s', 'k', 'n', 'p'] { Some(Mnemonic::Sknp) }
    else if t == seq!['g', 'd', 't'] { Some(Mnemonic::Gdt) }
    else if t == seq!['k', 'e', 'y'] { Some(Mnemonic::Key) }
    else if t == seq!['s', 'd', 't'] { Some(Mnemonic::Sdt) }
    else if t == seq!['s', 's', 't'] { Some(Mnemonic::Sst) }
    else if t == seq!['a', 'd', 'd', 'i'] { Some(Mnemonic::Addi) }
    else if t == seq!['f', 'o', 'n', 't'] { Some(Mnemonic::Font) }
    else if t == seq!['b', 'c', 'd'] { Some(Mnemonic::Bcd) }
    else if t == seq!['s', 't', 'o', 'r'] { Some(Mnemonic::Stor) }
    else if t == seq!['r', 'e', 'a', 'd'] { Some(Mnemonic::Read) }
    else { None }
}

/// How many operand tokens follow a mnemonic.
pub open spec fn operand_count(m: Mnemonic) -> nat {
    match m {
        Mnemonic::Cls | Mnemonic::Ret => 0,
        Mnemonic::Jp | Mnemonic::Call | Mnemonic::Ldi | Mnemonic::Jpv => 1,
        Mnemonic::Se | Mnemonic::Sne | Mnemonic::Ld | Mnemonic::Add | Mnemonic::Rnd
        | Mnemonic::Sev | Mnemonic::Mov | Mnemonic::Or | Mnemonic::And | Mnemonic::Xor
        | Mnemonic::Addr | Mnemonic::Sub | Mnemonic::Shr | Mnemonic::Subn | Mnemonic::Shl
        | Mnemonic::Snev => 2,
        Mnemonic::Drw => 3,
        _ => 1,
    }
}

/// The value of `c` as a digit in base `radix` (at most 36), as
/// `char::to_digit` gives it.
pub open spec fn digit_value(c: char, radix: nat) -> Option<nat> {
    let v = c as u32;
    let d: int = if 0x30 <= v <= 0x39 {
        v - 0x30
    } else if 0x61 <= v <= 0x7a {
        v - 0x61 + 10
    } else if 0x41 <= v <= 0x5a {
        v - 0x41 + 10
    } else {
        36
    };
    if d < radix { Some(d as nat) } else { None }
}

/// The value of a string of digits in base `radix`; `None` when one is not a
/// digit.
pub open spec fn digits_value(s: Seq<char>, radix: nat) -> Option<nat>
    decreases s.len(),
{
    if s.len() == 0 {
        Some(0)
    } else {
        match (digits_value(s.drop_last(), radix), digit_value(s.last(), radix)) {
            (Some(v), Some(d)) => Some(v * radix + d),
            _ => None,
        }
    }
}

/// `u16::from_str_radix`: an optional `+`, then at least one digit, and a value
/// that fits in 16 bits.
pub open spec fn parse_u16(s: Seq<char>, radix: nat) -> Option<u16> {
    if s.len() == 0 || s == seq!['+'] || s == seq!['-'] {
        None
    } else {
        let digits = if s[0] == '+' { s.drop_first() } else { s };
        match digits_value(digits, radix) {
            Some(v) => if v <= 0xffff { Some(v as u16) } else { None },
            None => None,
        }
    }
}

/// The value of an operand token: a hexadecimal number after `0x`, else a
/// decimal number, else the address of the label it names.
pub open spec fn operand_value(t: Seq<char>, labels: Map<Seq<char>, u16>) -> Option<u16> {
    let number = if t.len() >= 2 && t[0] == '0' && t[1] == 'x' {
        parse_u16(t.skip(2), 16)
    } else {
        parse_u16(t, 10)
    };
    match number {
        Some(v) => Some(v),
        None => if labels.contains_key(t) { Some(labels[t]) } else { None },
    }
}

/// Where the scan goes after the token at `i` and its `count` operands, stopping
/// at the end of the tokens.
pub open spec fn after_statement(i: int, count: nat, len: nat) -> int {
    if i + count + 1 < len { i + count + 1 } else { len as int }
}

/// The first pass: every token that is not a mnemonic or one of its operands is
/// a label for the address of the next instruction. `None` when an address would
/// pass 0xFFFF.
pub open spec fn labels_from(
    tokens: Seq<Seq<char>>,
    i: int,
    pc: int,
    labels: Map<Seq<char>, u16>,
) -> Option<Map<Seq<char>, u16>>
    decreases tokens.len() - i,
{
    if i < 0 || i >= tokens.len() {
        Some(labels)
    } else {
        match mnemonic_of(tokens[i]) {
            Some(m) => if pc + 2 > 0xffff {
                None
            } else {
                labels_from(
                    tokens,
                    after_statement(i, operand_count(m), tokens.len()),
                    pc + 2,
                    labels,
                )
            },
            None => labels_from(tokens, i + 1, pc, labels.insert(tokens[i], pc as u16)),
        }
    }
}

/// The label table when the first pass stops: at the end of the tokens, or at the
/// instruction whose address would pass 0xFFFF.
pub open spec fn labels_reached(
    tokens: Seq<Seq<char>>,
    i: int,
    pc: int,
    labels: Map<Seq<char>, u16>,
) -> Map<Seq<char>, u16>
    decreases tokens.len() - i,
{
    if i < 0 || i >= tokens.len() {
        labels
    } else {
        match mnemonic_of(tokens[i]) {
            Some(m) => if pc + 2 > 0xffff {
                labels
            } else {
                labels_reached(
                    tokens,
                    after_statement(i, operand_count(m), tokens.len()),
                    pc + 2,
                    labels,
                )
            },
            None => labels_reached(tokens, i + 1, pc, labels.insert(tokens[i], pc as u16)),
        }
    }
}

/// The values of the first `count` operands after the mnemonic at `i`, read in
/// order; the first that is missing or unreadable gives the error.
pub open spec fn operands(
    tokens: Seq<Seq<char>>,
    i: int,
    count: nat,
    labels: Map<Seq<char>, u16>,
) -> Result<Seq<u16>, CompileError>
    decreases count,
{
    if count == 0 {
        Ok(seq![])
    } else {
        match operands(tokens, i, (count - 1) as nat, labels) {
            Err(e) => Err(e),
            Ok(prev) => if i + count >= tokens.len() {
                Err(CompileError::MissingOperand)
            } else {
                match operand_value(tokens[i + count], labels) {
                    Some(v) => Ok(prev.push(v)),
                    None => Err(CompileError::UnresolvedOperand),
                }
            },
        }
    }
}

/// Opcode with high nibble `x` and a 12-bit operand.
pub open spec fn xnnn(x: u16, a: u16) -> u16 {
    (x << 12u16) | a
}

/// Opcode with high nibble `x`, a register and a byte.
pub open spec fn xnkk(x: u16, a: u16, b: u16) -> u16 {
    (x << 12u16) | (a << 8u16) | b
}

/// Opcode with high nibble `x`, two registers and low nibble `n`.
pub open spec fn xyzn(x: u16, a: u16, b: u16, n: u16) -> u16 {
    (x << 12u16) | (a << 8u16) | (b << 4u16) | n
}

/// Opcode with high nibble `x`, a register and low byte `lo`.
pub open spec fn xlo(x: u16, a: u16, lo: u16) -> u16 {
    (x << 12u16) | (a << 8u16) | lo
}

/// The opcode of a mnemonic with operand values `p`.
pub open spec fn encode(m: Mnemonic, p: Seq<u16>) -> u16 {
    match m {
        Mnemonic::Cls => 0x00e0,
        Mnemonic::Ret => 0x00ee,
        Mnemonic::Jp => xnnn(0x1, p[0]),
        Mnemonic::Call => xnnn(0x2, p[0]),
        Mnemonic::Se => xnkk(0x3, p[0], p[1]),
        Mnemonic::Sne => xnkk(0x4, p[0], p[1]),
        Mnemonic::Sev => xyzn(0x5, p[0], p[1], 0x0),
        Mnemonic::Ld => xnkk(0x6, p[0], p[1]),
        Mnemonic::Add => xnkk(0x7, p[0], p[1]),
        Mnemonic::Mov => xyzn(0x8, p[0], p[1], 0x0),
        Mnemonic::Or => xyzn(0x8, p[0], p[1], 0x1),
        Mnemonic::And => xyzn(0x8, p[0], p[1], 0x2),
        Mnemonic::Xor => xyzn(0x8, p[0], p[1], 0x3),
        Mnemonic::Addr => xyzn(0x8, p[0], p[1], 0x4),
        Mnemonic::Sub => xyzn(0x8, p[0], p[1], 0x5),
        Mnemonic::Shr => xyzn(0x8, p[0], p[1], 0x6),
        Mnemonic::Subn => xyzn(0x8, p[0], p[1], 0x7),
        Mnemonic::Shl => xyzn(0x8, p[0], p[1], 0xe),
        Mnemonic::Snev => xyzn(0x9, p[0], p[1], 0x0),
        Mnemonic::Ldi => xnnn(0xa, p[0]),
        Mnemonic::Jpv => xnnn(0xb, p[0]),
        Mnemonic::Rnd => xnkk(0xc, p[0], p[1]),
        Mnemonic::Drw => xyzn(0xd, p[0], p[1], p[2]),
        Mnemonic::Skp => xlo(0xe, p[0], 0x9e),
        Mnemonic::Sknp => xlo(0xe, p[0], 0xa1),
        Mnemonic::Gdt => xlo(0xf, p[0], 0x07),
        Mnemonic::Key => xlo(0xf, p[0], 0x0a),
        Mnemonic::Sdt => xlo(0xf, p[0], 0x15),
        Mnemonic::Sst => xlo(0xf, p[0], 0x18),
        Mnemonic::Addi => xlo(0xf, p[0], 0x1e),
        Mnemonic::Font => xlo(0xf, p[0], 0x29),
        Mnemonic::Bcd => xlo(0xf, p[0], 0x33),
        Mnemonic::Stor => xlo(0xf, p[0], 0x55),
        Mnemonic::Read => xlo(0xf, p[0], 0x65),
    }
}

/// The second pass from token `i` on: each mnemonic and its operands become an
/// opcode appended to `ops`; other tokens are passed over.
pub open spec fn assemble_from(
    tokens: Seq<Seq<char>>,
    i: int,
    labels: Map<Seq<char>, u16>,
    ops: Seq<u16>,
) -> Result<Seq<u16>, CompileError>
    decreases tokens.len() - i,
{
    if i < 0 || i >= tokens.len() {
        Ok(ops)
    } else {
        match mnemonic_of(tokens[i]) {
            None => assemble_from(tokens, i + 1, labels, ops),
            Some(m) => match operands(tokens, i, operand_count(m), labels) {
                Err(e) => Err(e),
                Ok(p) => assemble_from(
                    tokens,
                    after_statement(i, operand_count(m), tokens.len()),
                    labels,
                    ops.push(encode(m, p)),
                ),
            },
        }
    }
}

/// Where the second pass stops, and the opcodes it holds then: at the end of the
/// tokens, or at the mnemonic whose operands give the error.
pub open spec fn assemble_stop(
    tokens: Seq<Seq<char>>,
    i: int,
    labels: Map<Seq<char>, u16>,
    ops: Seq<u16>,
) -> (int, Seq<u16>)
    decreases tokens.len() - i,
{
    if i < 0 || i >= tokens.len() {
        (i, ops)
    } else {
        match mnemonic_of(tokens[i]) {
            None => assemble_stop(tokens, i + 1, labels, ops),
            Some(m) => match operands(tokens, i, operand_count(m), labels) {
                Err(e) => (i, ops),
                Ok(p) => assemble_stop(
                    tokens,
                    after_statement(i, operand_count(m), tokens.len()),
                    labels,
                    ops.push(encode(m, p)),
                ),
            },
        }
    }
}

/// What compiling `source` with assembler state `c` gives: the opcodes of the
/// program (after those `c` holds already), or the first error.
pub open spec fn compile_opcodes(c: CompilerState, source: Seq<char>) -> Result<
    Seq<u16>,
    CompileError,
> {
    let tokens = split_whitespace(source);
    match labels_from(tokens, 0, 0x200, c.labels) {
        None => Err(CompileError::ProgramTooLong),
        Some(labels) => assemble_from(tokens, c.index, labels, c.opcodes),
    }
}

/// The opcodes as big-endian bytes, one after the other.
pub open spec fn opcode_bytes(ops: Seq<u16>) -> Seq<u8> {
    Seq::new(
        2 * ops.len(),
        |k: int| if k % 2 == 0 { (ops[k / 2] >> 8u16) as u8 } else { (ops[k / 2] & 0xff) as u8 },
    )
}

} // verus!
