//! The instruction set of the register machine, with its textual and binary
//! encodings.

use vstd::prelude::*;

use crate::error::SuperrError;
use crate::text::{
    append_chars, chars_to_string, char_upper, char_to_upper, dec_digits, lemma_dec_digits_val,
    parse_dec, spec_parse_dec, spec_tokens, str_to_chars, tokenize, u64_to_dec, upper_seq,
};

verus! {

/// A memory cell holds an 8-bit unsigned value; arithmetic wraps modulo 256.
pub type MemValue = u8;

/// A zero-based index into the machine's memory cells.
pub type MemoryAddress = usize;

/// One operation of the register machine.
///
/// `Load` always writes cell 0.  `Swap`, `XOR`, `Add` and `Sub` take two
/// addresses; `Inc`, `Decr` and `Put` take one.  `Jmp` sets the program
/// counter to an absolute instruction index without incrementing it.
#[derive(Debug, Clone, Copy, PartialEq, Eq, Hash, Structural)]
pub enum Instruction {
    Load(MemValue),
    Swap(MemoryAddress, MemoryAddress),
    XOR(MemoryAddress, MemoryAddress),
    Inc(MemoryAddress),
    Decr(MemoryAddress),
    Add(MemoryAddress, MemoryAddress),
    Sub(MemoryAddress, MemoryAddress),
    Put(MemoryAddress),
    Jmp(usize),
}

impl Instruction {
    /// Every address operand lies inside the configured memory size.
    /// A `Jmp` target may be any index: a target at or past the end of the
    /// program simply ends execution.
    pub open spec fn wf(self, mem_size: nat) -> bool {
        match self {
            Instruction::Load(_) => true,
            Instruction::Swap(a, b) => a < mem_size && b < mem_size,
            Instruction::XOR(a, b) => a < mem_size && b < mem_size,
            Instruction::Inc(a) => a < mem_size,
            Instruction::Decr(a) => a < mem_size,
            Instruction::Add(a, b) => a < mem_size && b < mem_size,
            Instruction::Sub(a, b) => a < mem_size && b < mem_size,
            Instruction::Put(a) => a < mem_size,
            Instruction::Jmp(_) => true,
        }
    }

    /// Checks the construction-time invariant: every address operand must
    /// lie inside the configured memory size, else `InvalidOperand`.
    pub fn validate(&self, mem_size: usize) -> (r: Result<(), SuperrError>)
        ensures
            r is Ok <==> self.wf(mem_size as nat),
            r is Err ==> (r matches Err(e) && e is InvalidOperand),
    {
        let ok = match *self {
            Instruction::Load(_) => true,
            Instruction::Swap(a, b) => a < mem_size && b < mem_size,
            Instruction::XOR(a, b) => a < mem_size && b < mem_size,
            Instruction::Inc(a) => a < mem_size,
            Instruction::Decr(a) => a < mem_size,
            Instruction::Add(a, b) => a < mem_size && b < mem_size,
            Instruction::Sub(a, b) => a < mem_size && b < mem_size,
            Instruction::Put(a) => a < mem_size,
            Instruction::Jmp(_) => true,
        };
        if ok {
            Ok(())
        } else {
            Err(SuperrError::InvalidOperand)
        }
    }

    /// The instruction fits the fixed-width binary word: addresses take
    /// twelve bits each and a `Jmp` target takes twenty-four.
    pub open spec fn encodable(self) -> bool {
        match self {
            Instruction::Load(_) => true,
            Instruction::Swap(a, b) => a < 0x1000 && b < 0x1000,
            Instruction::XOR(a, b) => a < 0x1000 && b < 0x1000,
            Instruction::Inc(a) => a < 0x1000,
            Instruction::Decr(a) => a < 0x1000,
            Instruction::Add(a, b) => a < 0x1000 && b < 0x1000,
            Instruction::Sub(a, b) => a < 0x1000 && b < 0x1000,
            Instruction::Put(a) => a < 0x1000,
            Instruction::Jmp(t) => t < 0x100_0000,
        }
    }
}

// ------------------------------------------------------------------
// Textual form: `MNEMONIC arg1 [arg2]`, decimal operands, one per line.
// ------------------------------------------------------------------

/// The canonical text of an instruction: the upper-case mnemonic and its
/// decimal operands, separated by single spaces.
pub open spec fn spec_instr_text(i: Instruction) -> Seq<char> {
    match i {
        Instruction::Load(v) => seq!['L', 'O', 'A', 'D', ' '] + dec_digits(v as nat),
        Instruction::Swap(a, b) => seq!['S', 'W', 'A', 'P', ' '] + dec_digits(a as nat) + seq![' ']
            + dec_digits(b as nat),
        Instruction::XOR(a, b) => seq!['X', 'O', 'R', ' '] + dec_digits(a as nat) + seq![' ']
            + dec_digits(b as nat),
        Instruction::Inc(a) => seq!['I', 'N', 'C', ' '] + dec_digits(a as nat),
        Instruction::Decr(a) => seq!['D', 'E', 'C', 'R', ' '] + dec_digits(a as nat),
        Instruction::Add(a, b) => seq!['A', 'D', 'D', ' '] + dec_digits(a as nat) + seq![' ']
            + dec_digits(b as nat),
        Instruction::Sub(a, b) => seq!['S', 'U', 'B', ' '] + dec_digits(a as nat) + seq![' ']
            + dec_digits(b as nat),
        Instruction::Put(a) => seq!['P', 'U', 'T', ' '] + dec_digits(a as nat),
        Instruction::Jmp(t) => seq!['J', 'M', 'P', ' '] + dec_digits(t as nat),
    }
}

/// An immediate token: a decimal number that fits in eight bits.
pub open spec fn spec_tok_imm(t: Seq<char>) -> Option<u8> {
    match spec_parse_dec(t) {
        Some(v) => if v <= 255 {
            Some(v as u8)
        } else {
            None
        },
        None => None,
    }
}

/// An address token: a decimal number below the configured memory size.
pub open spec fn spec_tok_addr(t: Seq<char>, mem_size: nat) -> Option<usize> {
    match spec_parse_dec(t) {
        Some(v) => if (v as nat) < mem_size {
            Some(v as usize)
        } else {
            None
        },
        None => None,
    }
}

/// A `Jmp` target token: a decimal number that fits in twenty-four bits.
pub open spec fn spec_tok_target(t: Seq<char>) -> Option<usize> {
    match spec_parse_dec(t) {
        Some(v) => if v < 0x100_0000 {
            Some(v as usize)
        } else {
            None
        },
        None => None,
    }
}

/// Parses the word list of one line.  The mnemonic is matched without regard
/// to case; the operand count and each operand's range must fit the mnemonic.
pub open spec fn spec_parse_tokens(toks: Seq<Seq<char>>, mem_size: nat) -> Option<Instruction> {
    if toks.len() == 0 {
        None
    } else {
        let m = upper_seq(toks[0]);
        if m == seq!['L', 'O', 'A', 'D'] {
            if toks.len() == 2 {
                match spec_tok_imm(toks[1]) {
                    Some(v) => Some(Instruction::Load(v)),
                    None => None,
                }
            } else {
                None
            }
        } else if m == seq!['S', 'W', 'A', 'P'] {
            spec_two_addr(toks, mem_size, |a: usize, b: usize| Instruction::Swap(a, b))
        } else if m == seq!['X', 'O', 'R'] {
            spec_two_addr(toks, mem_size, |a: usize, b: usize| Instruction::XOR(a, b))
        } else if m == seq!['I', 'N', 'C'] {
            spec_one_addr(toks, mem_size, |a: usize| Instruction::Inc(a))
        } else if m == seq!['D', 'E', 'C', 'R'] {
            spec_one_addr(toks, mem_size, |a: usize| Instruction::Decr(a))
        } else if m == seq!['A', 'D', 'D'] {
            spec_two_addr(toks, mem_size, |a: usize, b: usize| Instruction::Add(a, b))
        } else if m == seq!['S', 'U', 'B'] {
            spec_two_addr(toks, mem_size, |a: usize, b: usize| Instruction::Sub(a, b))
        } else if m == seq!['P', 'U', 'T'] {
            spec_one_addr(toks, mem_size, |a: usize| Instruction::Put(a))
        } else if m == seq!['J', 'M', 'P'] {
            if toks.len() == 2 {
                match spec_tok_target(toks[1]) {
                    Some(t) => Some(Instruction::Jmp(t)),
                    None => None,
                }
            } else {
                None
            }
        } else {
            None
        }
    }
}

/// A mnemonic followed by exactly two address operands.
pub open spec fn spec_two_addr(
    toks: Seq<Seq<char>>,
    mem_size: nat,
    make: spec_fn(usize, usize) -> Instruction,
) -> Option<Instruction> {
    if toks.len() == 3 {
        match (spec_tok_addr(toks[1], mem_size), spec_tok_addr(toks[2], mem_size)) {
            (Some(a), Some(b)) => Some(make(a, b)),
            _ => None,
        }
    } else {
        None
    }
}

/// A mnemonic followed by exactly one address operand.
pub open spec fn spec_one_addr(
    toks: Seq<Seq<char>>,
    mem_size: nat,
    make: spec_fn(usize) -> Instruction,
) -> Option<Instruction> {
    if toks.len() == 2 {
        match spec_tok_addr(toks[1], mem_size) {
            Some(a) => Some(make(a)),
            None => None,
        }
    } else {
        None
    }
}

/// What one line of text denotes, if anything.
pub open spec fn spec_parse_line(s: Seq<char>, mem_size: nat) -> Option<Instruction> {
    spec_parse_tokens(spec_tokens(s), mem_size)
}

/// Uppercases every character of a word.
fn word_upper(w: &Vec<char>) -> (r: Vec<char>)
    ensures
        r@ == upper_seq(w@),
{
    let n = w.len();
    let mut v: Vec<char> = Vec::new();
    let mut i: usize = 0;
    while i < n
        invariant
            i <= n,
            n == w@.len(),
            v@ == upper_seq(w@.take(i as int)),
        decreases n - i,
    {
        v.push(char_to_upper(w[i]));
        proof {
            assert(upper_seq(w@.take(i as int)).push(char_upper(w@[i as int])) =~= upper_seq(
                w@.take(i + 1),
            ));
        }
        i = i + 1;
    }
    proof {
        assert(w@.take(n as int) =~= w@);
    }
    v
}

/// Compares a word with a three-letter pattern.
fn eq3(w: &Vec<char>, a: char, b: char, c: char) -> (r: bool)
    ensures
        r == (w@ == seq![a, b, c]),
{
    if w.len() == 3 && w[0] == a && w[1] == b && w[2] == c {
        proof {
            assert(w@ =~= seq![a, b, c]);
        }
        true
    } else {
        false
    }
}

/// Compares a word with a four-letter pattern.
fn eq4(w: &Vec<char>, a: char, b: char, c: char, d: char) -> (r: bool)
    ensures
        r == (w@ == seq![a, b, c, d]),
{
    if w.len() == 4 && w[0] == a && w[1] == b && w[2] == c && w[3] == d {
        proof {
            assert(w@ =~= seq![a, b, c, d]);
        }
        true
    } else {
        false
    }
}

/// Reads an immediate token.
fn tok_imm(t: &Vec<char>) -> (r: Option<u8>)
    ensures
        r == spec_tok_imm(t@),
{
    match parse_dec(t) {
        Some(v) => if v <= 255 {
            Some(v as u8)
        } else {
            None
        },
        None => None,
    }
}

/// Reads an address token against the configured memory size.
fn tok_addr(t: &Vec<char>, mem_size: usize) -> (r: Option<usize>)
    ensures
        r == spec_tok_addr(t@, mem_size as nat),
{
    match parse_dec(t) {
        Some(v) => if (v as u64) < (mem_size as u64) {
            Some(v as usize)
        } else {
            None
        },
        None => None,
    }
}

/// Reads a `Jmp` target token.
fn tok_target(t: &Vec<char>) -> (r: Option<usize>)
    ensures
        r == spec_tok_target(t@),
{
    match parse_dec(t) {
        Some(v) => if v < 0x100_0000 {
            Some(v as usize)
        } else {
            None
        },
        None => None,
    }
}

/// Builds the `MalformedInstruction` error for one line of text.
fn malformed_chars(line: &Vec<char>) -> (r: SuperrError)
    ensures
        r is MalformedInstruction,
{
    SuperrError::MalformedInstruction(chars_to_string(line))
}

/// Decodes one line of assembly text, exactly as `spec_parse_line` reads it.
/// Unrecognized mnemonics, missing or extra operands and out-of-range
/// operands are reported as `MalformedInstruction`, never a panic.
pub fn instruction_parser(line: &str, mem_size: usize) -> (r: Result<Instruction, SuperrError>)
    ensures
        match spec_parse_line(line@, mem_size as nat) {
            Some(i) => r == Ok::<Instruction, SuperrError>(i),
            None => r matches Err(e) && e is MalformedInstruction,
        },
{
    let chars = str_to_chars(line);
    parse_instruction_chars(&chars, mem_size)
}

/// Decodes one line given as a character vector; see `instruction_parser`.
pub fn parse_instruction_chars(chars: &Vec<char>, mem_size: usize) -> (r: Result<
    Instruction,
    SuperrError,
>)
    ensures
        match spec_parse_line(chars@, mem_size as nat) {
            Some(i) => r == Ok::<Instruction, SuperrError>(i),
            None => r matches Err(e) && e is MalformedInstruction,
        },
{
    let toks = tokenize(chars);
    let ghost stoks = spec_tokens(chars@);
    proof {
        assert(toks.deep_view() == stoks);
        assert(forall|i: int|
            0 <= i < toks@.len() ==> #[trigger] toks@[i]@ == toks.deep_view()[i]);
    }
    if toks.len() == 0 {
        return Err(malformed_chars(chars));
    }
    let up = word_upper(&toks[0]);
    if eq4(&up, 'L', 'O', 'A', 'D') {
        if toks.len() == 2 {
            match tok_imm(&toks[1]) {
                Some(v) => Ok(Instruction::Load(v)),
                None => Err(malformed_chars(chars)),
            }
        } else {
            Err(malformed_chars(chars))
        }
    } else if eq4(&up, 'S', 'W', 'A', 'P') {
        if toks.len() == 3 {
            match (tok_addr(&toks[1], mem_size), tok_addr(&toks[2], mem_size)) {
                (Some(a), Some(b)) => Ok(Instruction::Swap(a, b)),
                _ => Err(malformed_chars(chars)),
            }
        } else {
            Err(malformed_chars(chars))
        }
    } else if eq3(&up, 'X', 'O', 'R') {
        if toks.len() == 3 {
            match (tok_addr(&toks[1], mem_size), tok_addr(&toks[2], mem_size)) {
                (Some(a), Some(b)) => Ok(Instruction::XOR(a, b)),
                _ => Err(malformed_chars(chars)),
            }
        } else {
            Err(malformed_chars(chars))
        }
    } else if eq3(&up, 'I', 'N', 'C') {
        if toks.len() == 2 {
            match tok_addr(&toks[1], mem_size) {
                Some(a) => Ok(Instruction::Inc(a)),
                None => Err(malformed_chars(chars)),
            }
        } else {
            Err(malformed_chars(chars))
        }
    } else if eq4(&up, 'D', 'E', 'C', 'R') {
        if toks.len() == 2 {
            match tok_addr(&toks[1], mem_size) {
                Some(a) => Ok(Instruction::Decr(a)),
                None => Err(malformed_chars(chars)),
            }
        } else {
            Err(malformed_chars(chars))
        }
    } else if eq3(&up, 'A', 'D', 'D') {
        if toks.len() == 3 {
            match (tok_addr(&toks[1], mem_size), tok_addr(&toks[2], mem_size)) {
                (Some(a), Some(b)) => Ok(Instruction::Add(a, b)),
                _ => Err(malformed_chars(chars)),
            }
        } else {
            Err(malformed_chars(chars))
        }
    } else if eq3(&up, 'S', 'U', 'B') {
        if toks.len() == 3 {
            match (tok_addr(&toks[1], mem_size), tok_addr(&toks[2], mem_size)) {
                (Some(a), Some(b)) => Ok(Instruction::Sub(a, b)),
                _ => Err(malformed_chars(chars)),
            }
        } else {
            Err(malformed_chars(chars))
        }
    } else if eq3(&up, 'P', 'U', 'T') {
        if toks.len() == 2 {
            match tok_addr(&toks[1], mem_size) {
                Some(a) => Ok(Instruction::Put(a)),
                None => Err(malformed_chars(chars)),
            }
        } else {
            Err(malformed_chars(chars))
        }
    } else if eq3(&up, 'J', 'M', 'P') {
        if toks.len() == 2 {
            match tok_target(&toks[1]) {
                Some(t) => Ok(Instruction::Jmp(t)),
                None => Err(malformed_chars(chars)),
            }
        } else {
            Err(malformed_chars(chars))
        }
    } else {
        Err(malformed_chars(chars))
    }
}

impl Instruction {
    /// Spells the instruction in its canonical text form.
    pub fn to_text(&self) -> (r: String)
        ensures
            r@ == spec_instr_text(*self),
    {
        let mut buf: Vec<char> = Vec::new();
        match *self {
            Instruction::Load(v) => {
                let head = vec!['L', 'O', 'A', 'D', ' '];
                proof {
                    assert(head@ =~= seq!['L', 'O', 'A', 'D', ' ']);
                }
                append_chars(&mut buf, &head);
                let ds = u64_to_dec(v as u64);
                append_chars(&mut buf, &ds);
            },
            Instruction::Swap(a, b) => {
                let head = vec!['S', 'W', 'A', 'P', ' '];
                proof {
                    assert(head@ =~= seq!['S', 'W', 'A', 'P', ' ']);
                }
                append_chars(&mut buf, &head);
                push_two_operands(&mut buf, a, b);
            },
            Instruction::XOR(a, b) => {
                let head = vec!['X', 'O', 'R', ' '];
                proof {
                    assert(head@ =~= seq!['X', 'O', 'R', ' ']);
                }
                append_chars(&mut buf, &head);
                push_two_operands(&mut buf, a, b);
            },
            Instruction::Inc(a) => {
                let head = vec!['I', 'N', 'C', ' '];
                proof {
                    assert(head@ =~= seq!['I', 'N', 'C', ' ']);
                }
                append_chars(&mut buf, &head);
                let ds = u64_to_dec(a as u64);
                append_chars(&mut buf, &ds);
            },
            Instruction::Decr(a) => {
                let head = vec!['D', 'E', 'C', 'R', ' '];
                proof {
                    assert(head@ =~= seq!['D', 'E', 'C', 'R', ' ']);
                }
                append_chars(&mut buf, &head);
                let ds = u64_to_dec(a as u64);
                append_chars(&mut buf, &ds);
            },
            Instruction::Add(a, b) => {
                let head = vec!['A', 'D', 'D', ' '];
                proof {
                    assert(head@ =~= seq!['A', 'D', 'D', ' ']);
                }
                append_chars(&mut buf, &head);
                push_two_operands(&mut buf, a, b);
            },
            Instruction::Sub(a, b) => {
                let head = vec!['S', 'U', 'B', ' '];
                proof {
                    assert(head@ =~= seq!['S', 'U', 'B', ' ']);
                }
                append_chars(&mut buf, &head);
                push_two_operands(&mut buf, a, b);
            },
            Instruction::Put(a) => {
                let head = vec!['P', 'U', 'T', ' '];
                proof {
                    assert(head@ =~= seq!['P', 'U', 'T', ' ']);
                }
                append_chars(&mut buf, &head);
                let ds = u64_to_dec(a as u64);
                append_chars(&mut buf, &ds);
            },
            Instruction::Jmp(t) => {
                let head = vec!['J', 'M', 'P', ' '];
                proof {
                    assert(head@ =~= seq!['J', 'M', 'P', ' ']);
                }
                append_chars(&mut buf, &head);
                let ds = u64_to_dec(t as u64);
                append_chars(&mut buf, &ds);
            },
        }
        chars_to_string(&buf)
    }
}

/// Digits are never separators.
proof fn lemma_digits_nonspace(d: Seq<char>)
    requires
        crate::text::all_dec_digits(d),
    ensures
        forall|i: int| 0 <= i < d.len() ==> !crate::text::is_space(#[trigger] d[i]),
{
    assert forall|i: int| 0 <= i < d.len() implies !crate::text::is_space(#[trigger] d[i]) by {
        assert(crate::text::is_dec_digit(d[i]));
    }
}

/// `MNEMONIC digits` splits into those two words.
proof fn lemma_tokens_mn1(mn: Seq<char>, d: Seq<char>)
    requires
        mn.len() > 0,
        forall|i: int| 0 <= i < mn.len() ==> !crate::text::is_space(#[trigger] mn[i]),
        d.len() > 0,
        crate::text::all_dec_digits(d),
    ensures
        spec_tokens(mn + seq![' '] + d) == seq![mn, d],
{
    lemma_digits_nonspace(d);
    assert(mn + seq![' '] + d =~= mn + (seq![' '] + d));
    assert((seq![' '] + d)[0] == ' ');
    crate::text::lemma_tokens_word(mn, seq![' '] + d);
    crate::text::lemma_tokens_space(d);
    crate::text::lemma_tokens_single(d);
    assert(seq![mn] + seq![d] =~= seq![mn, d]);
}

/// `MNEMONIC digits digits` splits into those three words.
proof fn lemma_tokens_mn2(mn: Seq<char>, d1: Seq<char>, d2: Seq<char>)
    requires
        mn.len() > 0,
        forall|i: int| 0 <= i < mn.len() ==> !crate::text::is_space(#[trigger] mn[i]),
        d1.len() > 0,
        crate::text::all_dec_digits(d1),
        d2.len() > 0,
        crate::text::all_dec_digits(d2),
    ensures
        spec_tokens(mn + seq![' '] + d1 + seq![' '] + d2) == seq![mn, d1, d2],
{
    lemma_digits_nonspace(d1);
    lemma_digits_nonspace(d2);
    let tail = d1 + (seq![' '] + d2);
    assert(mn + seq![' '] + d1 + seq![' '] + d2 =~= mn + (seq![' '] + tail));
    assert((seq![' '] + tail)[0] == ' ');
    crate::text::lemma_tokens_word(mn, seq![' '] + tail);
    crate::text::lemma_tokens_space(tail);
    assert((seq![' '] + d2)[0] == ' ');
    crate::text::lemma_tokens_word(d1, seq![' '] + d2);
    crate::text::lemma_tokens_space(d2);
    crate::text::lemma_tokens_single(d2);
    assert(seq![mn] + (seq![d1] + seq![d2]) =~= seq![mn, d1, d2]);
}

/// Spelling a well-formed, encodable instruction and reading the line back
/// gives the instruction again: the text form round-trips losslessly.
#[verifier::rlimit(60)]
pub proof fn lemma_text_round_trip(i: Instruction, mem_size: nat)
    requires
        i.wf(mem_size),
        i.encodable(),
        mem_size <= 0x1000,
    ensures
        spec_parse_line(spec_instr_text(i), mem_size) == Some(i),
{
    match i {
        Instruction::Load(v) => {
            let mn = seq!['L', 'O', 'A', 'D'];
            let d = dec_digits(v as nat);
            lemma_dec_digits_val(v as nat);
            lemma_tokens_mn1(mn, d);
            assert(spec_instr_text(i) =~= mn + seq![' '] + d);
            assert(upper_seq(mn) =~= mn);
        },
        Instruction::Swap(a, b) => {
            lemma_round_two(seq!['S', 'W', 'A', 'P'], a, b);
            let d1 = dec_digits(a as nat);
            let d2 = dec_digits(b as nat);
            assert(spec_instr_text(i) =~= seq!['S', 'W', 'A', 'P'] + seq![' '] + d1 + seq![' ']
                + d2);
        },
        Instruction::XOR(a, b) => {
            lemma_round_two(seq!['X', 'O', 'R'], a, b);
            let d1 = dec_digits(a as nat);
            let d2 = dec_digits(b as nat);
            assert(spec_instr_text(i) =~= seq!['X', 'O', 'R'] + seq![' '] + d1 + seq![' '] + d2);
        },
        Instruction::Inc(a) => {
            lemma_round_one(seq!['I', 'N', 'C'], a);
            assert(spec_instr_text(i) =~= seq!['I', 'N', 'C'] + seq![' '] + dec_digits(a as nat));
        },
        Instruction::Decr(a) => {
            lemma_round_one(seq!['D', 'E', 'C', 'R'], a);
            assert(spec_instr_text(i) =~= seq!['D', 'E', 'C', 'R'] + seq![' '] + dec_digits(
                a as nat,
            ));
        },
        Instruction::Add(a, b) => {
            lemma_round_two(seq!['A', 'D', 'D'], a, b);
            let d1 = dec_digits(a as nat);
            let d2 = dec_digits(b as nat);
            assert(spec_instr_text(i) =~= seq!['A', 'D', 'D'] + seq![' '] + d1 + seq![' '] + d2);
        },
        Instruction::Sub(a, b) => {
            lemma_round_two(seq!['S', 'U', 'B'], a, b);
            let d1 = dec_digits(a as nat);
            let d2 = dec_digits(b as nat);
            assert(spec_instr_text(i) =~= seq!['S', 'U', 'B'] + seq![' '] + d1 + seq![' '] + d2);
        },
        Instruction::Put(a) => {
            lemma_round_one(seq!['P', 'U', 'T'], a);
            assert(spec_instr_text(i) =~= seq!['P', 'U', 'T'] + seq![' '] + dec_digits(a as nat));
        },
        Instruction::Jmp(t) => {
            let mn = seq!['J', 'M', 'P'];
            let d = dec_digits(t as nat);
            lemma_dec_digits_val(t as nat);
            lemma_tokens_mn1(mn, d);
            assert(spec_instr_text(i) =~= mn + seq![' '] + d);
            assert(upper_seq(mn) =~= mn);
        },
    }
}

/// Shared token facts for a one-address spelling.
proof fn lemma_round_one(mn: Seq<char>, a: usize)
    requires
        a < 0x1000,
        forall|i: int| 0 <= i < mn.len() ==> char_upper(#[trigger] mn[i]) == mn[i] && !crate::text::is_space(mn[i]),
        mn.len() > 0,
    ensures
        spec_tokens(mn + seq![' '] + dec_digits(a as nat)) == seq![mn, dec_digits(a as nat)],
        upper_seq(mn) == mn,
        spec_parse_dec(dec_digits(a as nat)) == Some(a as u32),
{
    let d = dec_digits(a as nat);
    lemma_dec_digits_val(a as nat);
    lemma_tokens_mn1(mn, d);
    assert(upper_seq(mn) =~= mn);
}

/// Shared token facts for a two-address spelling.
proof fn lemma_round_two(mn: Seq<char>, a: usize, b: usize)
    requires
        a < 0x1000,
        b < 0x1000,
        forall|i: int| 0 <= i < mn.len() ==> char_upper(#[trigger] mn[i]) == mn[i] && !crate::text::is_space(mn[i]),
        mn.len() > 0,
    ensures
        spec_tokens(mn + seq![' '] + dec_digits(a as nat) + seq![' '] + dec_digits(b as nat))
            == seq![mn, dec_digits(a as nat), dec_digits(b as nat)],
        upper_seq(mn) == mn,
        spec_parse_dec(dec_digits(a as nat)) == Some(a as u32),
        spec_parse_dec(dec_digits(b as nat)) == Some(b as u32),
{
    lemma_dec_digits_val(a as nat);
    lemma_dec_digits_val(b as nat);
    lemma_tokens_mn2(mn, dec_digits(a as nat), dec_digits(b as nat));
    assert(upper_seq(mn) =~= mn);
}

// ------------------------------------------------------------------
// Binary form: one 4-byte word per instruction, the opcode packed into
// the high byte and the operands into the low twenty-four bits.
// ------------------------------------------------------------------

/// The packed 32-bit word of an instruction: the opcode in the high byte,
/// two 12-bit addresses, one address or immediate, or a 24-bit `Jmp` target
/// in the low bits.
pub open spec fn spec_encode_word(i: Instruction) -> u32 {
    match i {
        Instruction::Load(v) => (0x000_0000 + v) as u32,
        Instruction::Swap(a, b) => (0x100_0000 + a * 0x1000 + b) as u32,
        Instruction::XOR(a, b) => (0x200_0000 + a * 0x1000 + b) as u32,
        Instruction::Inc(a) => (0x300_0000 + a) as u32,
        Instruction::Decr(a) => (0x400_0000 + a) as u32,
        Instruction::Add(a, b) => (0x500_0000 + a * 0x1000 + b) as u32,
        Instruction::Sub(a, b) => (0x600_0000 + a * 0x1000 + b) as u32,
        Instruction::Put(a) => (0x700_0000 + a) as u32,
        Instruction::Jmp(t) => (0x800_0000 + t) as u32,
    }
}

/// What a 32-bit word denotes, if anything: the inverse reading of
/// `spec_encode_word`, with every operand checked against its range.
pub open spec fn spec_decode_word(w: u32, mem_size: nat) -> Option<Instruction> {
    let op = w / 0x100_0000;
    let payload = (w % 0x100_0000) as nat;
    let a = payload / 0x1000;
    let b = payload % 0x1000;
    if op == 0 {
        if payload <= 255 {
            Some(Instruction::Load(payload as u8))
        } else {
            None
        }
    } else if op == 1 {
        if a < mem_size && b < mem_size {
            Some(Instruction::Swap(a as usize, b as usize))
        } else {
            None
        }
    } else if op == 2 {
        if a < mem_size && b < mem_size {
            Some(Instruction::XOR(a as usize, b as usize))
        } else {
            None
        }
    } else if op == 3 {
        if payload < mem_size {
            Some(Instruction::Inc(payload as usize))
        } else {
            None
        }
    } else if op == 4 {
        if payload < mem_size {
            Some(Instruction::Decr(payload as usize))
        } else {
            None
        }
    } else if op == 5 {
        if a < mem_size && b < mem_size {
            Some(Instruction::Add(a as usize, b as usize))
        } else {
            None
        }
    } else if op == 6 {
        if a < mem_size && b < mem_size {
            Some(Instruction::Sub(a as usize, b as usize))
        } else {
            None
        }
    } else if op == 7 {
        if payload < mem_size {
            Some(Instruction::Put(payload as usize))
        } else {
            None
        }
    } else if op == 8 {
        Some(Instruction::Jmp(payload as usize))
    } else {
        None
    }
}

impl Instruction {
    /// Packs the instruction into its 32-bit word.
    pub fn encode_word(&self) -> (r: u32)
        requires
            self.encodable(),
        ensures
            r == spec_encode_word(*self),
    {
        match *self {
            Instruction::Load(v) => v as u32,
            Instruction::Swap(a, b) => 0x100_0000u32 + (a as u32) * 0x1000 + (b as u32),
            Instruction::XOR(a, b) => 0x200_0000u32 + (a as u32) * 0x1000 + (b as u32),
            Instruction::Inc(a) => 0x300_0000u32 + (a as u32),
            Instruction::Decr(a) => 0x400_0000u32 + (a as u32),
            Instruction::Add(a, b) => 0x500_0000u32 + (a as u32) * 0x1000 + (b as u32),
            Instruction::Sub(a, b) => 0x600_0000u32 + (a as u32) * 0x1000 + (b as u32),
            Instruction::Put(a) => 0x700_0000u32 + (a as u32),
            Instruction::Jmp(t) => 0x800_0000u32 + (t as u32),
        }
    }

    /// Unpacks a 32-bit word, exactly as `spec_decode_word` reads it; a word
    /// with an unknown opcode or an out-of-range operand is malformed.
    pub fn decode_word(w: u32, mem_size: usize) -> (r: Result<Instruction, SuperrError>)
        ensures
            match spec_decode_word(w, mem_size as nat) {
                Some(i) => r == Ok::<Instruction, SuperrError>(i),
                None => r matches Err(e) && e is MalformedInstruction,
            },
    {
        let op = w / 0x100_0000;
        let payload = w % 0x100_0000;
        let a = payload / 0x1000;
        let b = payload % 0x1000;
        if op == 0 {
            if payload <= 255 {
                Ok(Instruction::Load(payload as u8))
            } else {
                Err(word_malformed(w))
            }
        } else if op == 1 {
            if (a as u64) < (mem_size as u64) && (b as u64) < (mem_size as u64) {
                Ok(Instruction::Swap(a as usize, b as usize))
            } else {
                Err(word_malformed(w))
            }
        } else if op == 2 {
            if (a as u64) < (mem_size as u64) && (b as u64) < (mem_size as u64) {
                Ok(Instruction::XOR(a as usize, b as usize))
            } else {
                Err(word_malformed(w))
            }
        } else if op == 3 {
            if (payload as u64) < (mem_size as u64) {
                Ok(Instruction::Inc(payload as usize))
            } else {
                Err(word_malformed(w))
            }
        } else if op == 4 {
            if (payload as u64) < (mem_size as u64) {
                Ok(Instruction::Decr(payload as usize))
            } else {
                Err(word_malformed(w))
            }
        } else if op == 5 {
            if (a as u64) < (mem_size as u64) && (b as u64) < (mem_size as u64) {
                Ok(Instruction::Add(a as usize, b as usize))
            } else {
                Err(word_malformed(w))
            }
        } else if op == 6 {
            if (a as u64) < (mem_size as u64) && (b as u64) < (mem_size as u64) {
                Ok(Instruction::Sub(a as usize, b as usize))
            } else {
                Err(word_malformed(w))
            }
        } else if op == 7 {
            if (payload as u64) < (mem_size as u64) {
                Ok(Instruction::Put(payload as usize))
            } else {
                Err(word_malformed(w))
            }
        } else if op == 8 {
            Ok(Instruction::Jmp(payload as usize))
        } else {
            Err(word_malformed(w))
        }
    }
}

/// Builds the `MalformedInstruction` error for one binary word.
fn word_malformed(w: u32) -> (r: SuperrError)
    ensures
        r is MalformedInstruction,
{
    let ds = u64_to_dec(w as u64);
    SuperrError::MalformedInstruction(chars_to_string(&ds))
}

/// Packing then unpacking a well-formed, encodable instruction gives the
/// instruction back: the binary form round-trips losslessly.
pub proof fn lemma_word_round_trip(i: Instruction, mem_size: nat)
    requires
        i.wf(mem_size),
        i.encodable(),
        mem_size <= 0x1000,
    ensures
        spec_decode_word(spec_encode_word(i), mem_size) == Some(i),
{
    match i {
        Instruction::Load(v) => {
            assert(spec_encode_word(i) / 0x100_0000 == 0);
        },
        Instruction::Swap(a, b) => {
            lemma_two_addr_word(1, a, b);
        },
        Instruction::XOR(a, b) => {
            lemma_two_addr_word(2, a, b);
        },
        Instruction::Inc(a) => {
            lemma_one_addr_word(3, a);
        },
        Instruction::Decr(a) => {
            lemma_one_addr_word(4, a);
        },
        Instruction::Add(a, b) => {
            lemma_two_addr_word(5, a, b);
        },
        Instruction::Sub(a, b) => {
            lemma_two_addr_word(6, a, b);
        },
        Instruction::Put(a) => {
            lemma_one_addr_word(7, a);
        },
        Instruction::Jmp(t) => {
            lemma_one_addr_word(8, t);
        },
    }
}

/// Opcode and single 24-bit payload unpack from their packed word.
proof fn lemma_one_addr_word(op: nat, a: usize)
    requires
        a < 0x100_0000,
        op <= 8,
    ensures
        ((op * 0x100_0000 + a) as u32) / 0x100_0000 == op,
        ((op * 0x100_0000 + a) as u32) % 0x100_0000 == a,
{
    let w = op * 0x100_0000 + a;
    assert(w < 0x1_0000_0000) by (nonlinear_arith)
        requires
            op <= 8,
            a < 0x100_0000,
            w == op * 0x100_0000 + a,
    ;
    assert(w / 0x100_0000 == op && w % 0x100_0000 == a) by (nonlinear_arith)
        requires
            w == op * 0x100_0000 + a,
            a < 0x100_0000,
    ;
}

/// Two 12-bit addresses unpack from their packed payload.
proof fn lemma_two_addr_word(op: nat, a: usize, b: usize)
    requires
        a < 0x1000,
        b < 0x1000,
        op <= 8,
    ensures
        ((op * 0x100_0000 + a * 0x1000 + b) as u32) / 0x100_0000 == op,
        ((op * 0x100_0000 + a * 0x1000 + b) as u32) % 0x100_0000 == a * 0x1000 + b,
        ((a * 0x1000 + b) as nat) / 0x1000 == a,
        ((a * 0x1000 + b) as nat) % 0x1000 == b,
{
    assert(a * 0x1000 + b < 0x100_0000) by (nonlinear_arith)
        requires
            a < 0x1000,
            b < 0x1000,
    ;
    lemma_one_addr_word(op, (a * 0x1000 + b) as usize);
    assert((a * 0x1000 + b) / 0x1000 == a && (a * 0x1000 + b) % 0x1000 == b) by (nonlinear_arith)
        requires
            a < 0x1000,
            b < 0x1000,
    ;
}

/// Appends `<a> <b>` in decimal to the buffer.
fn push_two_operands(buf: &mut Vec<char>, a: usize, b: usize)
    ensures
        final(buf)@ == old(buf)@ + dec_digits(a as nat) + seq![' '] + dec_digits(b as nat),
{
    let da = u64_to_dec(a as u64);
    append_chars(buf, &da);
    let sp = vec![' '];
    proof {
        assert(sp@ =~= seq![' ']);
    }
    append_chars(buf, &sp);
    let db = u64_to_dec(b as u64);
    append_chars(buf, &db);
}

} // verus!
