//! The assembler: turns the mnemonic source of a program into the big-endian
//! bytes of its opcodes.
use vstd::prelude::*;

use crate::assembly::{
    assemble_from, assemble_stop, compile_opcodes, labels_reached, digit_value, digits_value, encode,
    is_whitespace, labels_from, mnemonic_of, opcode_bytes, operand_count, operand_value,
    operands, parse_u16, split_tokens, split_whitespace, token_if_any, xlo, xnkk, xnnn, xyzn,
    CompileError, CompilerState, Mnemonic,
};

verus! {

/// Whether two character strings are equal.
fn same_chars(a: &[char], b: &[char]) -> (same: bool)
    ensures
        same == (a@ == b@),
{
    if a.len() != b.len() {
        return false;
    }
    let mut i: usize = 0;
    while i < a.len()
        invariant
            i <= a.len(),
            a.len() == b.len(),
            forall|j: int| 0 <= j < i ==> a@[j] == b@[j],
        decreases a.len() - i,
    {
        if a[i] != b[i] {
            return false;
        }
        i += 1;
    }
    assert(a@ =~= b@);
    true
}



/// Whether `c` is whitespace, as `char::is_whitespace` tests it.
fn is_whitespace_char(c: char) -> (ws: bool)
    ensures
        ws == is_whitespace(c),
{
    let v = c as u32;
    (0x09 <= v && v <= 0x0d) || v == 0x20 || v == 0x85 || v == 0xa0 || v == 0x1680 || (0x2000
        <= v && v <= 0x200a) || v == 0x2028 || v == 0x2029 || v == 0x202f || v == 0x205f || v
        == 0x3000
}

/// One character of the scan: whitespace ends the current token, anything else
/// extends it.
proof fn lemma_split_step(s: Seq<char>, i: int, cur: Seq<char>)
    requires
        0 <= i < s.len(),
    ensures
        split_tokens(s.skip(i), cur) == if is_whitespace(s[i]) {
            token_if_any(cur) + split_tokens(s.skip(i + 1), seq![])
        } else {
            split_tokens(s.skip(i + 1), cur.push(s[i]))
        },
{
    assert(s.skip(i).drop_first() =~= s.skip(i + 1));
    assert(s.skip(i)[0] == s[i]);
}

/// Pushing a token onto a token list pushes its characters onto the list's view.
proof fn lemma_push_token(v: Seq<Vec<char>>, w: Vec<Vec<char>>, t: Vec<char>, v_view: Seq<Seq<char>>)
    requires
        w@ == v.push(t),
        v_view == Seq::new(v.len(), |i: int| v[i].deep_view()),
    ensures
        w.deep_view() == v_view.push(t@),
{
    assert(t.deep_view() =~= t@);
    assert(w.deep_view() =~= v_view.push(t@));
}

/// Splits `source` into its whitespace-separated tokens.
fn tokenize(source: &str) -> (tokens: Vec<Vec<char>>)
    ensures
        tokens.deep_view() == split_whitespace(source@),
{
    let mut tokens: Vec<Vec<char>> = Vec::new();
    let mut cur: Vec<char> = Vec::new();
    let ghost s = source@;
    assert(s.skip(0) =~= s);
    assert(tokens.deep_view() + split_tokens(s, seq![]) =~= split_tokens(s, seq![]));
    for c in it: source.chars()
        invariant
            it.seq() == s,
            split_whitespace(s) == tokens.deep_view() + split_tokens(s.skip(it.index() as int), cur@),
    {
        let ghost i = it.index() as int;
        let ghost before = tokens.deep_view();
        let ghost before_vec = tokens@;
        let ghost cur0 = cur@;
        proof {
            lemma_split_step(s, i, cur@);
        }
        assert(c == s[i]);
        if is_whitespace_char(c) {
            if cur.len() > 0 {
                let t = cur;
                tokens.push(t);
                cur = Vec::new();
                proof {
                    lemma_push_token(before_vec, tokens, t, before);
                }
                assert(before + (seq![cur0] + split_tokens(s.skip(i + 1), seq![])) =~= before.push(cur0) + split_tokens(s.skip(i + 1), seq![]));
            } else {
                assert(token_if_any(cur0) =~= seq![]);
                assert(before + (seq![] + split_tokens(s.skip(i + 1), seq![])) =~= before + split_tokens(s.skip(i + 1), seq![]));
            }
            assert(cur@ =~= seq![]);
        } else {
            cur.push(c);
        }
    }
    let ghost before = tokens.deep_view();
    let ghost before_vec = tokens@;
    let ghost cur0 = cur@;
    assert(s.skip(s.len() as int) =~= seq![]);
    if cur.len() > 0 {
        let t = cur;
        tokens.push(t);
        proof {
            lemma_push_token(before_vec, tokens, t, before);
        }
        assert(tokens.deep_view() =~= before + seq![cur0]);
    } else {
        assert(before + seq![] =~= before);
    }
    tokens
}


/// The mnemonic that a token spells, if any.
fn mnemonic(t: &[char]) -> (m: Option<Mnemonic>)
    ensures
        m == mnemonic_of(t@),
{
    if same_chars(t, &['c', 'l', 's']) {
        Some(Mnemonic::Cls)
    } else if same_chars(t, &['r', 'e', 't']) {
        Some(Mnemonic::Ret)
    } else if same_chars(t, &['j', 'p']) {
        Some(Mnemonic::Jp)
    } else if same_chars(t, &['c', 'a', 'l', 'l']) {
        Some(Mnemonic::Call)
    } else if same_chars(t, &['s', 'e']) {
        Some(Mnemonic::Se)
    } else if same_chars(t, &['s', 'n', 'e']) {
        Some(Mnemonic::Sne)
    } else if same_chars(t, &['s', 'e', 'v']) {
        Some(Mnemonic::Sev)
    } else if same_chars(t, &['l', 'd']) {
        Some(Mnemonic::Ld)
    } else if same_chars(t, &['a', 'd', 'd']) {
        Some(Mnemonic::Add)
    } else if same_chars(t, &['m', 'o', 'v']) {
        Some(Mnemonic::Mov)
    } else if same_chars(t, &['o', 'r']) {
        Some(Mnemonic::Or)
    } else if same_chars(t, &['a', 'n', 'd']) {
        Some(Mnemonic::And)
    } else if same_chars(t, &['x', 'o', 'r']) {
        Some(Mnemonic::Xor)
    } else if same_chars(t, &['a', 'd', 'd', 'r']) {
        Some(Mnemonic::Addr)
    } else if same_chars(t, &['s', 'u', 'b']) {
        Some(Mnemonic::Sub)
    } else if same_chars(t, &['s', 'h', 'r']) {
        Some(Mnemonic::Shr)
    } else if same_chars(t, &['s', 'u', 'b', 'n']) {
        Some(Mnemonic::Subn)
    } else if same_chars(t, &['s', 'h', 'l']) {
        Some(Mnemonic::Shl)
    } else if same_chars(t, &['s', 'n', 'e', 'v']) {
        Some(Mnemonic::Snev)
    } else if same_chars(t, &['l', 'd', 'i']) {
        Some(Mnemonic::Ldi)
    } else if same_chars(t, &['j', 'p', 'v']) {
        Some(Mnemonic::Jpv)
    } else if same_chars(t, &['r', 'n', 'd']) {
        Some(Mnemonic::Rnd)
    } else if same_chars(t, &['d', 'r', 'w']) {
        Some(Mnemonic::Drw)
    } else if same_chars(t, &['s', 'k', 'p']) {
        Some(Mnemonic::Skp)
    } else if same_chars(t, &['s', 'k', 'n', 'p']) {
        Some(Mnemonic::Sknp)
    } else if same_chars(t, &['g', 'd', 't']) {
        Some(Mnemonic::Gdt)
    } else if same_chars(t, &['k', 'e', 'y']) {
        Some(Mnemonic::Key)
    } else if same_chars(t, &['s', 'd', 't']) {
        Some(Mnemonic::Sdt)
    } else if same_chars(t, &['s', 's', 't']) {
        Some(Mnemonic::Sst)
    } else if same_chars(t, &['a', 'd', 'd', 'i']) {
        Some(Mnemonic::Addi)
    } else if same_chars(t, &['f', 'o', 'n', 't']) {
        Some(Mnemonic::Font)
    } else if same_chars(t, &['b', 'c', 'd']) {
        Some(Mnemonic::Bcd)
    } else if same_chars(t, &['s', 't', 'o', 'r']) {
        Some(Mnemonic::Stor)
    } else if same_chars(t, &['r', 'e', 'a', 'd']) {
        Some(Mnemonic::Read)
    } else {
        None
    }
}

/// How many operand tokens follow a mnemonic.
fn operand_count_of(m: Mnemonic) -> (n: usize)
    ensures
        n == operand_count(m),
{
    match m {
        Mnemonic::Cls | Mnemonic::Ret => 0,
        Mnemonic::Jp | Mnemonic::Call | Mnemonic::Ldi | Mnemonic::Jpv => 1,
        Mnemonic::Se | Mnemonic::Sne | Mnemonic::Ld | Mnemonic::Add | Mnemonic::Rnd
        | Mnemonic::Sev | Mnemonic::Mov | Mnemonic::Or | Mnemonic::And | Mnemonic::Xor
        | Mnemonic::Addr | Mnemonic::Sub | Mnemonic::Shr | Mnemonic::Subn | Mnemonic::Shl
        | Mnemonic::Snev => 2,
        Mnemonic::Drw => 3,
        _ => 1,
    }
}

/// The value of `c` as a digit in base `radix`.
fn digit_of(c: char, radix: u32) -> (d: Option<u32>)
    requires
        radix <= 36,
    ensures
        d matches Some(v) ==> digit_value(c, radix as nat) == Some(v as nat),
        d is None ==> digit_value(c, radix as nat) is None,
{
    let v = c as u32;
    let d: u32 = if 0x30 <= v && v <= 0x39 {
        v - 0x30
    } else if 0x61 <= v && v <= 0x7a {
        v - 0x61 + 10
    } else if 0x41 <= v && v <= 0x5a {
        v - 0x41 + 10
    } else {
        36
    };
    if d < radix {
        Some(d)
    } else {
        None
    }
}

/// A prefix with a non-digit spoils every longer string.
proof fn lemma_digits_none_extends(s: Seq<char>, k: int, radix: nat)
    requires
        0 <= k <= s.len(),
        digits_value(s.take(k), radix) is None,
    ensures
        digits_value(s, radix) is None,
    decreases s.len(),
{
    if s.len() == k {
        assert(s.take(k) =~= s);
    } else {
        assert(s.drop_last().take(k) =~= s.take(k));
        lemma_digits_none_extends(s.drop_last(), k, radix);
    }
}

/// Capping at `cap` before or after a step of positional notation is the same.
proof fn lemma_saturate(a: nat, radix: nat, d: nat, cap: nat)
    requires
        radix >= 1,
    ensures
        ({
            let capped = if a < cap { a } else { cap };
            let x = capped * radix + d;
            let y = a * radix + d;
            (if x < cap { x } else { cap }) == (if y < cap { y } else { cap })
        }),
{
    if a >= cap {
        assert(a * radix >= a) by (nonlinear_arith)
            requires radix >= 1;
        assert(cap * radix >= cap) by (nonlinear_arith)
            requires radix >= 1;
    }
}

/// `u16::from_str_radix` on the characters of `s` from `start` on.
fn parse_u16_from(s: &[char], start: usize, radix: u32) -> (v: Option<u16>)
    requires
        start <= s.len(),
        2 <= radix <= 36,
    ensures
        v == parse_u16(s@.skip(start as int), radix as nat),
{
    let ghost t = s@.skip(start as int);
    if start == s.len() {
        return None;
    }
    if start + 1 == s.len() && (s[start] == '+' || s[start] == '-') {
        assert(t =~= seq![s@[start as int]]);
        return None;
    }
    proof {
        if t == seq!['+'] || t == seq!['-'] {
            assert(t.len() == 1);
            assert(t[0] == s@[start as int]);
        }
    }
    assert(t.len() > 0 && t != seq!['+'] && t != seq!['-']);
    let first: usize = if s[start] == '+' {
        start + 1
    } else {
        start
    };
    let ghost digits = if t[0] == '+' { t.drop_first() } else { t };
    assert(digits =~= s@.skip(first as int));
    let cap: u32 = 0x10000;
    let mut value: u32 = 0;
    let mut i: usize = first;
    assert(digits.take(0) =~= seq![]);
    while i < s.len()
        invariant
            first <= i <= s.len(),
            2 <= radix <= 36,
            cap == 0x10000,
            digits == s@.skip(first as int),
            t == s@.skip(start as int),
            t.len() > 0 && t != seq!['+'] && t != seq!['-'],
            digits == (if t[0] == '+' { t.drop_first() } else { t }),
            digits_value(digits.take(i - first), radix as nat) is Some,
            value == (if digits_value(digits.take(i - first), radix as nat).unwrap() < cap {
                digits_value(digits.take(i - first), radix as nat).unwrap()
            } else {
                cap as nat
            }),
        decreases s.len() - i,
    {
        let ghost k = i - first;
        assert(digits.take(k + 1).drop_last() =~= digits.take(k));
        assert(digits.take(k + 1).last() == s@[i as int]);
        match digit_of(s[i], radix) {
            None => {
                proof {
                    assert(digits_value(digits.take(k + 1), radix as nat) is None);
                    lemma_digits_none_extends(digits, k + 1, radix as nat);
                    assert(digits_value(digits, radix as nat) is None);
                }
                return None;
            },
            Some(d) => {
                proof {
                    lemma_saturate(
                        digits_value(digits.take(k), radix as nat).unwrap(),
                        radix as nat,
                        d as nat,
                        cap as nat,
                    );
                }
                assert(value * radix <= 0x10000 * 36) by (nonlinear_arith)
                    requires
                        value <= 0x10000,
                        radix <= 36,
                ;
                let next = value * radix + d;
                value = if next < cap {
                    next
                } else {
                    cap
                };
            },
        }
        i += 1;
    }
    assert(digits.take(digits.len() as int) =~= digits);
    if value < cap {
        Some(value as u16)
    } else {
        None
    }
}

/// The label table: names and the addresses they stand for. A later entry for a
/// name overrides an earlier one.
struct LabelTable {
    entries: Vec<(Vec<char>, u16)>,
}

/// The map that a list of entries stands for, later entries winning.
spec fn entries_map(s: Seq<(Seq<char>, u16)>) -> Map<Seq<char>, u16>
    decreases s.len(),
{
    if s.len() == 0 {
        Map::empty()
    } else {
        entries_map(s.drop_last()).insert(s.last().0, s.last().1)
    }
}

/// The map holds a name exactly when an entry has it, with the value of the last
/// such entry.
proof fn lemma_entries_map(s: Seq<(Seq<char>, u16)>, k: Seq<char>, i: int)
    requires
        -1 <= i < s.len(),
        forall|j: int| i < j < s.len() ==> s[j].0 != k,
    ensures
        0 <= i && s[i].0 == k ==> entries_map(s).contains_key(k) && entries_map(s)[k] == s[i].1,
        (forall|j: int| 0 <= j <= i ==> s[j].0 != k) ==> !entries_map(s).contains_key(k),
    decreases s.len(),
{
    if s.len() > 0 {
        let last = s.len() - 1;
        if i == last {
            if s[i].0 != k {
                lemma_entries_map(s.drop_last(), k, i - 1);
            }
        } else {
            lemma_entries_map(s.drop_last(), k, i);
        }
    }
}

impl View for LabelTable {
    type V = Map<Seq<char>, u16>;

    closed spec fn view(&self) -> Map<Seq<char>, u16> {
        entries_map(self.entries.deep_view())
    }
}

impl LabelTable {
    fn new() -> (t: Self)
        ensures
            t@ == Map::<Seq<char>, u16>::empty(),
    {
        let t = LabelTable { entries: Vec::new() };
        assert(t.entries.deep_view() =~= seq![]);
        t
    }

    fn insert(&mut self, name: Vec<char>, address: u16)
        ensures
            final(self)@ == old(self)@.insert(name@, address),
    {
        let ghost before = self.entries.deep_view();
        assert(name.deep_view() =~= name@);
        self.entries.push((name, address));
        assert(self.entries.deep_view().drop_last() =~= before);
        assert(self.entries.deep_view().last() == (name@, address));
    }

    fn get(&self, name: &[char]) -> (address: Option<u16>)
        ensures
            address == (if self@.contains_key(name@) {
                Some(self@[name@])
            } else {
                None
            }),
    {
        let ghost s = self.entries.deep_view();
        let mut i: usize = self.entries.len();
        while i > 0
            invariant
                i <= self.entries.len(),
                s == self.entries.deep_view(),
                forall|j: int| i <= j < s.len() ==> s[j].0 != name@,
            decreases i,
        {
            i -= 1;
            assert(self.entries@[i as int].0.deep_view() =~= self.entries@[i as int].0@);
            if same_chars(self.entries[i].0.as_slice(), name) {
                proof {
                    lemma_entries_map(s, name@, i as int);
                }
                return Some(self.entries[i].1);
            }
        }
        proof {
            lemma_entries_map(s, name@, -1);
        }
        None
    }
}


/// Operands that all read mean the tokens they come from exist.
proof fn lemma_operands_in_range(
    tokens: Seq<Seq<char>>,
    i: int,
    count: nat,
    labels: Map<Seq<char>, u16>,
)
    requires
        0 <= i < tokens.len(),
        operands(tokens, i, count, labels) is Ok,
    ensures
        i + count < tokens.len(),
        operands(tokens, i, count, labels)->Ok_0.len() == count,
    decreases count,
{
    if count > 0 {
        lemma_operands_in_range(tokens, i, (count - 1) as nat, labels);
    }
}

/// An assembler for the CHIP-8 mnemonic language.
pub struct Compiler {
    tokens: Vec<Vec<char>>,
    index: usize,
    opcodes: Vec<u16>,
    labels: LabelTable,
}

impl View for Compiler {
    type V = CompilerState;

    closed spec fn view(&self) -> CompilerState {
        CompilerState {
            tokens: self.tokens.deep_view(),
            index: self.index as int,
            opcodes: self.opcodes@,
            labels: self.labels@,
        }
    }
}

impl Compiler {
    /// An assembler with no tokens, opcodes or labels.
    pub fn new() -> (c: Self)
        ensures
            c@ == (CompilerState {
                tokens: seq![],
                index: 0,
                opcodes: seq![],
                labels: Map::empty(),
            }),
    {
        let c = Compiler {
            tokens: Vec::new(),
            index: 0,
            opcodes: Vec::new(),
            labels: LabelTable::new(),
        };
        assert(c.tokens.deep_view() =~= seq![]);
        c
    }

    /// The first pass: records, for every token that is not a mnemonic or one of
    /// its operands, the address of the instruction that follows it.
    fn assign_labels(&mut self) -> (r: Result<(), CompileError>)
        ensures
            final(self)@.tokens == old(self)@.tokens,
            final(self)@.index == old(self)@.index,
            final(self)@.opcodes == old(self)@.opcodes,
            match labels_from(old(self)@.tokens, 0, 0x200, old(self)@.labels) {
                Some(labels) => r is Ok && final(self)@.labels == labels,
                None => r == Err::<(), CompileError>(CompileError::ProgramTooLong),
            },
            final(self)@.labels == labels_reached(old(self)@.tokens, 0, 0x200, old(self)@.labels),
    {
        let ghost goal = labels_from(self@.tokens, 0, 0x200, self@.labels);
        let ghost reached = labels_reached(self@.tokens, 0, 0x200, self@.labels);
        let mut program_counter: u16 = 0x200;
        let mut index: usize = 0;
        while index < self.tokens.len()
            invariant
                index <= self.tokens.len(),
                0x200 <= program_counter,
                self@.tokens == old(self)@.tokens,
                self@.index == old(self)@.index,
                self@.opcodes == old(self)@.opcodes,
                goal == labels_from(old(self)@.tokens, 0, 0x200, old(self)@.labels),
                goal == labels_from(self@.tokens, index as int, program_counter as int, self@.labels),
                reached == labels_reached(old(self)@.tokens, 0, 0x200, old(self)@.labels),
                reached == labels_reached(
                    self@.tokens,
                    index as int,
                    program_counter as int,
                    self@.labels,
                ),
            decreases self.tokens.len() - index,
        {
            proof {
                assert(self@.tokens[index as int] == self.tokens@[index as int]@) by {
                    assert(self.tokens@[index as int].deep_view() =~= self.tokens@[index as int]@);
                }
            }
            match mnemonic(self.tokens[index].as_slice()) {
                Some(m) => {
                    let operands = operand_count_of(m);
                    if program_counter > 0xfffd {
                        return Err(CompileError::ProgramTooLong);
                    }
                    // Past the operands, or to the end when they run off it.
                    index = if operands + 1 < self.tokens.len() - index {
                        index + operands + 1
                    } else {
                        self.tokens.len()
                    };
                    program_counter += 2;
                },
                None => {
                    let label = self.tokens[index].clone();
                    assert(label@ =~= self.tokens@[index as int]@);
                    self.labels.insert(label, program_counter);
                    index += 1;
                },
            }
        }
        Ok(())
    }

    /// Appends an opcode to the program.
    fn push(&mut self, opcode: u16)
        ensures
            final(self)@ == (CompilerState { opcodes: old(self)@.opcodes.push(opcode), ..old(self)@ }),
    {
        self.opcodes.push(opcode);
    }

    /// The value of an operand token: a hexadecimal number after `0x`, else a
    /// decimal number, else the address of the label it names.
    fn parse(&self, token: &Vec<char>) -> (v: Option<u16>)
        ensures
            v == operand_value(token@, self@.labels),
    {
        let number = if token.len() >= 2 && token[0] == '0' && token[1] == 'x' {
            parse_u16_from(token.as_slice(), 2, 16)
        } else {
            parse_u16_from(token.as_slice(), 0, 10)
        };
        assert(token@.skip(0) =~= token@);
        match number {
            Some(v) => Some(v),
            None => self.labels.get(token.as_slice()),
        }
    }

    /// The value of operand `k` of the mnemonic at the current token.
    fn operand(&self, k: usize) -> (v: Result<u16, CompileError>)
        requires
            1 <= k <= 3,
            self@.index < self@.tokens.len(),
        ensures
            self@.index + k >= self@.tokens.len() ==> v == Err::<u16, CompileError>(
                CompileError::MissingOperand,
            ),
            self@.index + k < self@.tokens.len() ==> v == match operand_value(
                self@.tokens[self@.index + k],
                self@.labels,
            ) {
                Some(x) => Ok::<u16, CompileError>(x),
                None => Err(CompileError::UnresolvedOperand),
            },
    {
        if k >= self.tokens.len() - self.index {
            return Err(CompileError::MissingOperand);
        }
        let token = &self.tokens[self.index + k];
        assert(token.deep_view() =~= token@);
        match self.parse(token) {
            Some(x) => Ok(x),
            None => Err(CompileError::UnresolvedOperand),
        }
    }

    /// High nibble `x`, then a 12-bit address operand.
    fn combine_xnnn(&mut self, x: u16) -> (r: Result<(), CompileError>)
        requires
            old(self)@.index < old(self)@.tokens.len(),
        ensures
            match operands(old(self)@.tokens, old(self)@.index, 1, old(self)@.labels) {
                Ok(p) => r is Ok && final(self)@ == (CompilerState {
                    opcodes: old(self)@.opcodes.push(xnnn(x, p[0])),
                    index: old(self)@.index + 1,
                    ..old(self)@
                }),
                Err(e) => r == Err::<(), CompileError>(e) && *final(self) == *old(self),
            },
    {
        proof {
            reveal_with_fuel(operands, 4);
            assert(self@.tokens.len() == self.tokens.len());
        }
        let a = match self.operand(1) {
            Ok(v) => v,
            Err(e) => return Err(e),
        };
        self.push((x << 12u16) | a);
        self.index += 1;
        Ok(())
    }

    /// High nibble `x`, then a register operand and a byte operand.
    fn combine_xnkk(&mut self, x: u16) -> (r: Result<(), CompileError>)
        requires
            old(self)@.index < old(self)@.tokens.len(),
        ensures
            match operands(old(self)@.tokens, old(self)@.index, 2, old(self)@.labels) {
                Ok(p) => r is Ok && final(self)@ == (CompilerState {
                    opcodes: old(self)@.opcodes.push(xnkk(x, p[0], p[1])),
                    index: old(self)@.index + 2,
                    ..old(self)@
                }),
                Err(e) => r == Err::<(), CompileError>(e) && *final(self) == *old(self),
            },
    {
        proof {
            reveal_with_fuel(operands, 4);
            assert(self@.tokens.len() == self.tokens.len());
        }
        let a = match self.operand(1) {
            Ok(v) => v,
            Err(e) => return Err(e),
        };
        let b = match self.operand(2) {
            Ok(v) => v,
            Err(e) => return Err(e),
        };
        self.push((x << 12u16) | (a << 8u16) | b);
        self.index += 2;
        Ok(())
    }

    /// High nibble `x`, two register operands, low nibble `n`.
    fn combine_xyzn(&mut self, x: u16, n: u16) -> (r: Result<(), CompileError>)
        requires
            old(self)@.index < old(self)@.tokens.len(),
        ensures
            match operands(old(self)@.tokens, old(self)@.index, 2, old(self)@.labels) {
                Ok(p) => r is Ok && final(self)@ == (CompilerState {
                    opcodes: old(self)@.opcodes.push(xyzn(x, p[0], p[1], n)),
                    index: old(self)@.index + 2,
                    ..old(self)@
                }),
                Err(e) => r == Err::<(), CompileError>(e) && *final(self) == *old(self),
            },
    {
        proof {
            reveal_with_fuel(operands, 4);
            assert(self@.tokens.len() == self.tokens.len());
        }
        let a = match self.operand(1) {
            Ok(v) => v,
            Err(e) => return Err(e),
        };
        let b = match self.operand(2) {
            Ok(v) => v,
            Err(e) => return Err(e),
        };
        self.push((x << 12u16) | (a << 8u16) | (b << 4u16) | n);
        self.index += 2;
        Ok(())
    }

    /// High nibble `x` (F, or E for the key skips), a register operand, low byte `lo`.
    fn combine_xflo(&mut self, x: u16, lo: u16) -> (r: Result<(), CompileError>)
        requires
            old(self)@.index < old(self)@.tokens.len(),
        ensures
            match operands(old(self)@.tokens, old(self)@.index, 1, old(self)@.labels) {
                Ok(p) => r is Ok && final(self)@ == (CompilerState {
                    opcodes: old(self)@.opcodes.push(xlo(x, p[0], lo)),
                    index: old(self)@.index + 1,
                    ..old(self)@
                }),
                Err(e) => r == Err::<(), CompileError>(e) && *final(self) == *old(self),
            },
    {
        proof {
            reveal_with_fuel(operands, 4);
            assert(self@.tokens.len() == self.tokens.len());
        }
        let a = match self.operand(1) {
            Ok(v) => v,
            Err(e) => return Err(e),
        };
        self.push((x << 12u16) | (a << 8u16) | lo);
        self.index += 1;
        Ok(())
    }

    /// D, then two register operands and a row-count operand.
    fn combine_xyn(&mut self) -> (r: Result<(), CompileError>)
        requires
            old(self)@.index < old(self)@.tokens.len(),
        ensures
            match operands(old(self)@.tokens, old(self)@.index, 3, old(self)@.labels) {
                Ok(p) => r is Ok && final(self)@ == (CompilerState {
                    opcodes: old(self)@.opcodes.push(xyzn(0xd, p[0], p[1], p[2])),
                    index: old(self)@.index + 3,
                    ..old(self)@
                }),
                Err(e) => r == Err::<(), CompileError>(e) && *final(self) == *old(self),
            },
    {
        proof {
            reveal_with_fuel(operands, 4);
            assert(self@.tokens.len() == self.tokens.len());
        }
        let a = match self.operand(1) {
            Ok(v) => v,
            Err(e) => return Err(e),
        };
        let b = match self.operand(2) {
            Ok(v) => v,
            Err(e) => return Err(e),
        };
        let c = match self.operand(3) {
            Ok(v) => v,
            Err(e) => return Err(e),
        };
        self.push((0xdu16 << 12u16) | (a << 8u16) | (b << 4u16) | c);
        self.index += 3;
        Ok(())
    }

    /// Assembles the statement at the current token: a mnemonic with its
    /// operands becomes an opcode, and the current token moves to its last
    /// operand; any other token is passed over.
    fn assemble_statement(&mut self) -> (r: Result<(), CompileError>)
        requires
            old(self)@.index < old(self)@.tokens.len(),
        ensures
            match mnemonic_of(old(self)@.tokens[old(self)@.index]) {
                None => r is Ok && *final(self) == *old(self),
                Some(m) => match operands(
                    old(self)@.tokens,
                    old(self)@.index,
                    operand_count(m),
                    old(self)@.labels,
                ) {
                    Ok(p) => r is Ok && final(self)@ == (CompilerState {
                        opcodes: old(self)@.opcodes.push(encode(m, p)),
                        index: old(self)@.index + operand_count(m),
                        ..old(self)@
                    }),
                    Err(e) => r == Err::<(), CompileError>(e) && *final(self) == *old(self),
                },
            },
    {
        proof {
            assert(self@.tokens[self@.index] == self.tokens@[self.index as int]@) by {
                assert(self.tokens@[self.index as int].deep_view()
                    =~= self.tokens@[self.index as int]@);
            }
        }
        match mnemonic(self.tokens[self.index].as_slice()) {
            None => Ok(()),
            Some(Mnemonic::Cls) => {
                self.push(0x00e0);
                Ok(())
            },
            Some(Mnemonic::Ret) => {
                self.push(0x00ee);
                Ok(())
            },
            Some(Mnemonic::Jp) => self.combine_xnnn(0x1),
            Some(Mnemonic::Call) => self.combine_xnnn(0x2),
            Some(Mnemonic::Se) => self.combine_xnkk(0x3),
            Some(Mnemonic::Sne) => self.combine_xnkk(0x4),
            Some(Mnemonic::Sev) => self.combine_xyzn(0x5, 0x0),
            Some(Mnemonic::Ld) => self.combine_xnkk(0x6),
            Some(Mnemonic::Add) => self.combine_xnkk(0x7),
            Some(Mnemonic::Mov) => self.combine_xyzn(0x8, 0x0),
            Some(Mnemonic::Or) => self.combine_xyzn(0x8, 0x1),
            Some(Mnemonic::And) => self.combine_xyzn(0x8, 0x2),
            Some(Mnemonic::Xor) => self.combine_xyzn(0x8, 0x3),
            Some(Mnemonic::Addr) => self.combine_xyzn(0x8, 0x4),
            Some(Mnemonic::Sub) => self.combine_xyzn(0x8, 0x5),
            Some(Mnemonic::Shr) => self.combine_xyzn(0x8, 0x6),
            Some(Mnemonic::Subn) => self.combine_xyzn(0x8, 0x7),
            Some(Mnemonic::Shl) => self.combine_xyzn(0x8, 0xe),
            Some(Mnemonic::Snev) => self.combine_xyzn(0x9, 0x0),
            Some(Mnemonic::Ldi) => self.combine_xnnn(0xa),
            Some(Mnemonic::Jpv) => self.combine_xnnn(0xb),
            Some(Mnemonic::Rnd) => self.combine_xnkk(0xc),
            Some(Mnemonic::Drw) => self.combine_xyn(),
            Some(Mnemonic::Skp) => self.combine_xflo(0xe, 0x9e),
            Some(Mnemonic::Sknp) => self.combine_xflo(0xe, 0xa1),
            Some(Mnemonic::Gdt) => self.combine_xflo(0xf, 0x07),
            Some(Mnemonic::Key) => self.combine_xflo(0xf, 0x0a),
            Some(Mnemonic::Sdt) => self.combine_xflo(0xf, 0x15),
            Some(Mnemonic::Sst) => self.combine_xflo(0xf, 0x18),
            Some(Mnemonic::Addi) => self.combine_xflo(0xf, 0x1e),
            Some(Mnemonic::Font) => self.combine_xflo(0xf, 0x29),
            Some(Mnemonic::Bcd) => self.combine_xflo(0xf, 0x33),
            Some(Mnemonic::Stor) => self.combine_xflo(0xf, 0x55),
            Some(Mnemonic::Read) => self.combine_xflo(0xf, 0x65),
        }
    }

    /// All opcodes assembled so far, as big-endian bytes.
    fn opcode_bytes_of(&self) -> (bytes: Vec<u8>)
        ensures
            bytes@ == opcode_bytes(self@.opcodes),
    {
        let mut bytes: Vec<u8> = Vec::new();
        let mut i: usize = 0;
        while i < self.opcodes.len()
            invariant
                i <= self.opcodes.len(),
                bytes@.len() == 2 * i,
                forall|k: int| 0 <= k < 2 * i ==> bytes@[k] == opcode_bytes(self@.opcodes)[k],
            decreases self.opcodes.len() - i,
        {
            let op = self.opcodes[i];
            bytes.push((op >> 8u16) as u8);
            bytes.push((op & 0xff) as u8);
            proof {
                assert((2 * i) / 2 == i && (2 * i) % 2 == 0 && (2 * i + 1) / 2 == i && (2 * i + 1) % 2 == 1);
            }
            i += 1;
        }
        assert(bytes@ =~= opcode_bytes(self@.opcodes));
        bytes
    }

    /// Assembles `source`: splits it into tokens, gives every label the address of
    /// the instruction after it, then turns every mnemonic and its operands into an
    /// opcode. The bytes returned are all opcodes the assembler holds, big-endian.
    pub fn compile(&mut self, source: &str) -> (r: Result<Vec<u8>, CompileError>)
        ensures
            final(self)@.tokens == split_whitespace(source@),
            match compile_opcodes(old(self)@, source@) {
                Ok(ops) => r matches Ok(bytes) && bytes@ == opcode_bytes(ops) && final(self)@.opcodes
                    == ops,
                Err(e) => r == Err::<Vec<u8>, CompileError>(e),
            },
            final(self)@.labels == labels_reached(
                split_whitespace(source@),
                0,
                0x200,
                old(self)@.labels,
            ),
            labels_from(split_whitespace(source@), 0, 0x200, old(self)@.labels) is None ==> {
                &&& final(self)@.index == old(self)@.index
                &&& final(self)@.opcodes == old(self)@.opcodes
            },
            labels_from(split_whitespace(source@), 0, 0x200, old(self)@.labels) matches Some(
                labels,
            ) ==> (final(self)@.index, final(self)@.opcodes) == assemble_stop(
                split_whitespace(source@),
                old(self)@.index,
                labels,
                old(self)@.opcodes,
            ),
    {
        self.tokens = tokenize(source);
        match self.assign_labels() {
            Err(e) => return Err(e),
            Ok(()) => {},
        }
        let ghost tokens = self@.tokens;
        let ghost labels = self@.labels;
        while self.index < self.tokens.len()
            invariant
                self@.tokens.len() == self.tokens.len(),
                self@.tokens == tokens,
                self@.labels == labels,
                tokens == split_whitespace(source@),
                labels_from(tokens, 0, 0x200, old(self)@.labels) == Some(labels),
                compile_opcodes(old(self)@, source@) == assemble_from(
                    tokens,
                    self@.index,
                    labels,
                    self@.opcodes,
                ),
                labels == labels_reached(tokens, 0, 0x200, old(self)@.labels),
                assemble_stop(tokens, old(self)@.index, labels, old(self)@.opcodes)
                    == assemble_stop(tokens, self@.index, labels, self@.opcodes),
            decreases self.tokens.len() - self.index,
        {
            let ghost old_index = self@.index;
            let r = self.assemble_statement();
            match r {
                Err(e) => return Err(e),
                Ok(()) => {},
            }
            proof {
                if let Some(m) = mnemonic_of(tokens[old_index]) {
                    lemma_operands_in_range(tokens, old_index, operand_count(m), labels);
                }
            }
            self.index += 1;
        }
        Ok(self.opcode_bytes_of())
    }
}

} // verus!
