//! Programs: ordered sequences of instructions, with the program-level
//! serializations (line-oriented text, length-prefixed binary words).

use vstd::prelude::*;

use crate::error::SuperrError;
use crate::instruction::{
    spec_decode_word, spec_encode_word, spec_instr_text, spec_parse_line, Instruction,
    parse_instruction_chars,
};
use crate::text::{append_chars, chars_to_string, str_to_chars};

verus! {

/// An ordered, append-only sequence of instructions.  Equality between
/// programs is structural and is used only for display and deduplication;
/// program equivalence is always decided by executing both programs.
#[derive(Debug, Clone, PartialEq, Eq, Hash)]
pub struct Program {
    pub instructions: Vec<Instruction>,
}

impl View for Program {
    type V = Seq<Instruction>;

    open spec fn view(&self) -> Seq<Instruction> {
        self.instructions@
    }
}

impl Program {
    /// All instructions respect the configured memory size.
    pub open spec fn wf(self, mem_size: nat) -> bool {
        forall|i: int| 0 <= i < self@.len() ==> #[trigger] self@[i].wf(mem_size)
    }

    /// Creates an empty program.
    pub fn new() -> (r: Self)
        ensures
            r@ == Seq::<Instruction>::empty(),
    {
        Program { instructions: vec![] }
    }

    /// Number of instructions.
    pub fn len(&self) -> (r: usize)
        ensures
            r == self@.len(),
    {
        self.instructions.len()
    }

    /// An instruction-for-instruction copy.  Programs are cheaply cloneable
    /// value types; this copy is known to hold exactly the same instructions.
    pub fn duplicate(&self) -> (r: Program)
        ensures
            r@ == self@,
    {
        let mut v: Vec<Instruction> = Vec::new();
        let n = self.instructions.len();
        let mut i: usize = 0;
        while i < n
            invariant
                i <= n,
                n == self@.len(),
                v@ == self@.subrange(0, i as int),
            decreases n - i,
        {
            v.push(self.instructions[i]);
            proof {
                assert(v@ =~= self@.subrange(0, i + 1));
            }
            i = i + 1;
        }
        proof {
            assert(self@.subrange(0, n as int) =~= self@);
        }
        Program { instructions: v }
    }
}

impl Default for Program {
    fn default() -> (r: Self)
        ensures
            r@ == Seq::<Instruction>::empty(),
    {
        Program { instructions: vec![] }
    }
}

// ------------------------------------------------------------------
// Binary form: a big-endian 4-byte instruction count, then one 4-byte
// word per instruction.
// ------------------------------------------------------------------

/// The four big-endian bytes of a 32-bit word.
pub open spec fn be32(w: u32) -> Seq<u8> {
    seq![
        (w / 0x100_0000) as u8,
        ((w / 0x1_0000) % 0x100) as u8,
        ((w / 0x100) % 0x100) as u8,
        (w % 0x100) as u8,
    ]
}

/// The 32-bit word spelled by four big-endian bytes.
pub open spec fn read_be32(b0: u8, b1: u8, b2: u8, b3: u8) -> u32 {
    (b0 * 0x100_0000 + b1 * 0x1_0000 + b2 * 0x100 + b3) as u32
}

/// Big-endian packing round-trips.
pub proof fn lemma_be32_round(w: u32)
    ensures
        read_be32(be32(w)[0], be32(w)[1], be32(w)[2], be32(w)[3]) == w,
{
    assert((w / 0x100_0000) * 0x100_0000 + ((w / 0x1_0000) % 0x100) * 0x1_0000 + ((w / 0x100)
        % 0x100) * 0x100 + (w % 0x100) == w) by (bit_vector);
}

/// The instruction words of a program, one after another.
pub open spec fn words_bytes(p: Seq<Instruction>) -> Seq<u8>
    decreases p.len(),
{
    if p.len() == 0 {
        Seq::empty()
    } else {
        be32(spec_encode_word(p[0])) + words_bytes(p.drop_first())
    }
}

/// Appending one instruction appends its four bytes.
pub proof fn lemma_words_bytes_push(p: Seq<Instruction>, i: Instruction)
    ensures
        words_bytes(p.push(i)) == words_bytes(p) + be32(spec_encode_word(i)),
    decreases p.len(),
{
    if p.len() == 0 {
        assert(p.push(i)[0] == i);
        assert(p.push(i).drop_first() =~= Seq::<Instruction>::empty());
        assert(words_bytes(Seq::<Instruction>::empty()) == Seq::<u8>::empty());
        assert(words_bytes(p.push(i)) == be32(spec_encode_word(i)) + Seq::<u8>::empty());
        assert(be32(spec_encode_word(i)) + Seq::<u8>::empty() =~= be32(spec_encode_word(i)));
        assert(Seq::<u8>::empty() + be32(spec_encode_word(i)) =~= be32(spec_encode_word(i)));
    } else {
        assert(p.push(i)[0] == p[0]);
        assert(p.push(i).drop_first() =~= p.drop_first().push(i));
        lemma_words_bytes_push(p.drop_first(), i);
        assert(be32(spec_encode_word(p[0])) + (words_bytes(p.drop_first()) + be32(
            spec_encode_word(i),
        )) =~= (be32(spec_encode_word(p[0])) + words_bytes(p.drop_first())) + be32(
            spec_encode_word(i),
        ));
    }
}

/// The whole binary form: the count, then the words.
pub open spec fn spec_program_bytes(p: Seq<Instruction>) -> Seq<u8> {
    be32(p.len() as u32) + words_bytes(p)
}

/// Reads `n` packed instructions; the byte count must match exactly.
pub open spec fn spec_decode_words(s: Seq<u8>, n: nat, mem_size: nat) -> Option<
    Seq<Instruction>,
>
    decreases n,
{
    if n == 0 {
        if s.len() == 0 {
            Some(Seq::empty())
        } else {
            None
        }
    } else if s.len() < 4 {
        None
    } else {
        match spec_decode_word(read_be32(s[0], s[1], s[2], s[3]), mem_size) {
            None => None,
            Some(i) => match spec_decode_words(s.skip(4), (n - 1) as nat, mem_size) {
                None => None,
                Some(rest) => Some(seq![i] + rest),
            },
        }
    }
}

/// What a byte vector denotes: a count header followed by exactly that many
/// well-formed instruction words.
pub open spec fn spec_decode_program(s: Seq<u8>, mem_size: nat) -> Option<Seq<Instruction>> {
    if s.len() < 4 {
        None
    } else {
        spec_decode_words(s.skip(4), read_be32(s[0], s[1], s[2], s[3]) as nat, mem_size)
    }
}

impl Program {
    /// Packs the program into its binary form.
    pub fn to_bytes(&self) -> (r: Vec<u8>)
        requires
            forall|i: int| 0 <= i < self@.len() ==> (#[trigger] self@[i]).encodable(),
            self@.len() <= u32::MAX,
        ensures
            r@ == spec_program_bytes(self@),
    {
        let n = self.instructions.len();
        let mut out: Vec<u8> = Vec::new();
        push_be32(&mut out, n as u32);
        let mut i: usize = 0;
        while i < n
            invariant
                i <= n,
                n == self@.len() <= u32::MAX,
                forall|j: int| 0 <= j < self@.len() ==> (#[trigger] self@[j]).encodable(),
                out@ == be32(n as u32) + words_bytes(self@.take(i as int)),
            decreases n - i,
        {
            let w = self.instructions[i].encode_word();
            proof {
                lemma_words_bytes_push(self@.take(i as int), self@[i as int]);
                assert(self@.take(i as int).push(self@[i as int]) =~= self@.take(i + 1));
            }
            let ghost before = out@;
            push_be32(&mut out, w);
            proof {
                assert(before + be32(w) =~= be32(n as u32) + words_bytes(self@.take(i + 1)));
            }
            i = i + 1;
        }
        proof {
            assert(self@.take(n as int) =~= self@);
        }
        out
    }

    /// Unpacks a binary program.  A missing or short header, a trailing or
    /// missing byte, and any malformed word are reported as errors.
    pub fn from_bytes(bytes: &Vec<u8>, mem_size: usize) -> (r: Result<Program, SuperrError>)
        ensures
            match spec_decode_program(bytes@, mem_size as nat) {
                Some(p) => r matches Ok(prog) && prog@ == p,
                None => r matches Err(e) && e is MalformedInstruction,
            },
    {
        let total = bytes.len();
        if total < 4 {
            return Err(bytes_malformed());
        }
        let n = read_be32_at(bytes, 0);
        let mut prog: Vec<Instruction> = Vec::new();
        let mut done: u32 = 0;
        let mut pos: usize = 4;
        let ghost body = bytes@.skip(4);
        while done < n
            invariant
                done <= n,
                4 <= pos <= total == bytes@.len(),
                pos == 4 + 4 * done,
                n == read_be32(bytes@[0], bytes@[1], bytes@[2], bytes@[3]),
                body == bytes@.skip(4),
                match spec_decode_words(bytes@.skip(pos as int), (n - done) as nat, mem_size as nat) {
                    Some(rest) => spec_decode_words(body, n as nat, mem_size as nat) == Some(
                        prog@ + rest,
                    ),
                    None => spec_decode_words(body, n as nat, mem_size as nat) is None,
                },
            decreases n - done,
        {
            let ghost rem = bytes@.skip(pos as int);
            if total - pos < 4 {
                proof {
                    assert(rem.len() < 4);
                    assert(spec_decode_words(rem, (n - done) as nat, mem_size as nat) is None);
                }
                return Err(bytes_malformed());
            }
            let w = read_be32_at(bytes, pos);
            proof {
                assert(rem[0] == bytes@[pos as int]);
                assert(rem[1] == bytes@[pos + 1]);
                assert(rem[2] == bytes@[pos + 2]);
                assert(rem[3] == bytes@[pos + 3]);
            }
            match Instruction::decode_word(w, mem_size) {
                Ok(ins) => {
                    proof {
                        assert(rem.skip(4) =~= bytes@.skip(pos + 4));
                        let inner = spec_decode_words(
                            bytes@.skip(pos + 4),
                            (n - done - 1) as nat,
                            mem_size as nat,
                        );
                        if inner is Some {
                            let rest2 = inner->0;
                            assert(spec_decode_words(rem, (n - done) as nat, mem_size as nat)
                                == Some(seq![ins] + rest2));
                            assert(prog@.push(ins) + rest2 =~= prog@ + (seq![ins] + rest2));
                        }
                    }
                    prog.push(ins);
                    done = done + 1;
                    pos = pos + 4;
                },
                Err(e) => {
                    proof {
                        assert(spec_decode_words(rem, (n - done) as nat, mem_size as nat) is None);
                    }
                    return Err(bytes_malformed());
                },
            }
        }
        if pos != total {
            proof {
                assert(bytes@.skip(pos as int).len() != 0);
                assert(spec_decode_words(bytes@.skip(pos as int), 0, mem_size as nat) is None);
            }
            return Err(bytes_malformed());
        }
        proof {
            assert(bytes@.skip(pos as int).len() == 0);
            assert(spec_decode_words(bytes@.skip(pos as int), 0, mem_size as nat) == Some(
                Seq::<Instruction>::empty(),
            ));
            assert(prog@ + Seq::<Instruction>::empty() =~= prog@);
        }
        Ok(Program { instructions: prog })
    }
}

/// Appends the four big-endian bytes of `w`.
fn push_be32(out: &mut Vec<u8>, w: u32)
    ensures
        final(out)@ == old(out)@ + be32(w),
{
    let ghost start = out@;
    out.push((w / 0x100_0000) as u8);
    out.push(((w / 0x1_0000) % 0x100) as u8);
    out.push(((w / 0x100) % 0x100) as u8);
    out.push((w % 0x100) as u8);
    proof {
        assert(out@ =~= start + be32(w));
    }
}

/// Reads the four big-endian bytes at `pos`.
fn read_be32_at(bytes: &Vec<u8>, pos: usize) -> (r: u32)
    requires
        pos + 4 <= bytes@.len(),
    ensures
        r == read_be32(bytes@[pos as int], bytes@[pos + 1], bytes@[pos + 2], bytes@[pos + 3]),
{
    let n = bytes.len();
    (bytes[pos] as u32) * 0x100_0000 + (bytes[pos + 1] as u32) * 0x1_0000 + (bytes[pos + 2]
        as u32) * 0x100 + (bytes[pos + 3] as u32)
}

/// The `MalformedInstruction` error for a bad binary program.
fn bytes_malformed() -> (r: SuperrError)
    ensures
        r is MalformedInstruction,
{
    SuperrError::MalformedInstruction("bad binary program".to_owned())
}

// ------------------------------------------------------------------
// Line-oriented text form: one instruction per non-empty line.
// ------------------------------------------------------------------

/// Number of characters before the first line break.
pub open spec fn line_len(s: Seq<char>) -> nat
    decreases s.len(),
{
    if s.len() == 0 || s[0] == '\n' {
        0
    } else {
        1 + line_len(s.drop_first())
    }
}

/// `line_len` never runs past the end.
pub proof fn lemma_line_len_le(s: Seq<char>)
    ensures
        line_len(s) <= s.len(),
    decreases s.len(),
{
    if s.len() > 0 && s[0] != '\n' {
        lemma_line_len_le(s.drop_first());
    }
}

/// The lines of a text: segments between line breaks.  A text without a
/// final break still ends a line; empty segments are kept.
pub open spec fn spec_lines(s: Seq<char>) -> Seq<Seq<char>>
    decreases s.len(),
    via spec_lines_decreases
{
    if s.len() == 0 {
        Seq::empty()
    } else {
        let k = line_len(s) as int;
        if k == s.len() {
            seq![s]
        } else {
            seq![s.take(k)] + spec_lines(s.skip(k + 1))
        }
    }
}

#[via_fn]
proof fn spec_lines_decreases(s: Seq<char>) {
    if s.len() > 0 {
        lemma_line_len_le(s);
    }
}

/// A line with its carriage return, if any, removed.
pub open spec fn strip_cr(l: Seq<char>) -> Seq<char> {
    if l.len() > 0 && l.last() == '\r' {
        l.drop_last()
    } else {
        l
    }
}

/// Reads a line list: empty lines are skipped, every other line must spell
/// one instruction.
pub open spec fn spec_parse_lines(ls: Seq<Seq<char>>, mem_size: nat) -> Option<
    Seq<Instruction>,
>
    decreases ls.len(),
{
    if ls.len() == 0 {
        Some(Seq::empty())
    } else {
        let l = strip_cr(ls[0]);
        if l.len() == 0 {
            spec_parse_lines(ls.drop_first(), mem_size)
        } else {
            match spec_parse_line(l, mem_size) {
                None => None,
                Some(i) => match spec_parse_lines(ls.drop_first(), mem_size) {
                    None => None,
                    Some(rest) => Some(seq![i] + rest),
                },
            }
        }
    }
}

/// What a whole program text denotes, if every non-empty line is valid.
pub open spec fn spec_parse_program(s: Seq<char>, mem_size: nat) -> Option<Seq<Instruction>> {
    spec_parse_lines(spec_lines(s), mem_size)
}

/// Splits a text into its lines, as `spec_lines` reads it.
#[verifier::loop_isolation(false)]
fn split_lines(chars: &Vec<char>) -> (r: Vec<Vec<char>>)
    ensures
        r.deep_view() == spec_lines(chars@),
{
    let n = chars.len();
    let mut lines: Vec<Vec<char>> = Vec::new();
    proof {
        assert(chars@.skip(0) =~= chars@);
        assert(lines.deep_view() =~= Seq::<Seq<char>>::empty());
        assert(lines.deep_view() + spec_lines(chars@) =~= spec_lines(chars@));
    }
    let mut i: usize = 0;
    while i < n
        invariant
            i <= n,
            lines.deep_view() + spec_lines(chars@.skip(i as int)) == spec_lines(chars@),
        decreases n - i,
    {
        let start = i;
        let mut j = i;
        while j < n && chars[j as usize] != '\n'
            invariant
                start <= j <= n,
                line_len(chars@.skip(start as int)) == line_len(chars@.skip(j as int)) + (j
                    - start),
            decreases n - j,
        {
            proof {
                assert(chars@.skip(j as int)[0] == chars@[j as int]);
                assert(chars@.skip(j as int).drop_first() =~= chars@.skip(j + 1));
            }
            j = j + 1;
        }
        proof {
            if j < n {
                assert(chars@.skip(j as int)[0] == chars@[j as int]);
            } else {
                assert(chars@.skip(j as int).len() == 0);
            }
            assert(line_len(chars@.skip(j as int)) == 0);
            assert(line_len(chars@.skip(start as int)) == j - start);
        }
        let mut line: Vec<char> = Vec::new();
        let mut k = start;
        while k < j
            invariant
                start <= k <= j <= n,
                line@ == chars@.subrange(start as int, k as int),
            decreases j - k,
        {
            line.push(chars[k]);
            proof {
                assert(chars@.subrange(start as int, k as int).push(chars@[k as int])
                    =~= chars@.subrange(start as int, k + 1));
            }
            k = k + 1;
        }
        proof {
            let rest = chars@.skip(start as int);
            assert(rest.len() > 0);
            assert(rest.take((j - start) as int) =~= chars@.subrange(start as int, j as int));
            if j < n {
                assert(rest.skip((j - start) as int + 1) =~= chars@.skip(j + 1));
                assert(spec_lines(rest) == seq![line@] + spec_lines(chars@.skip(j + 1)));
            } else {
                assert((j - start) as int == rest.len());
                assert(rest.take((j - start) as int) =~= rest);
                assert(spec_lines(rest) == seq![rest]);
                assert(spec_lines(chars@.skip(n as int)) =~= Seq::<Seq<char>>::empty());
                assert(seq![line@] + spec_lines(chars@.skip(n as int)) =~= seq![line@]);
            }
        }
        let ghost old_lines = lines.deep_view();
        let ghost old_vecs = lines@;
        let ghost line_snap = line@;
        let ghost next_i: int = if j < n {
            j + 1
        } else {
            n as int
        };
        lines.push(line);
        proof {
            let dv = lines.deep_view();
            assert(lines@ == old_vecs.push(lines@[old_vecs.len() as int]));
            assert forall|x: int| 0 <= x < dv.len() implies dv[x] == old_lines.push(line_snap)[x] by {
                if x < old_lines.len() {
                    assert(lines@[x] == old_vecs[x]);
                    assert(old_lines[x] == old_vecs[x].deep_view());
                }
            }
            assert(dv =~= old_lines.push(line_snap));
            assert(old_lines.push(line_snap) =~= old_lines + seq![line_snap]);
            assert(old_lines + seq![line_snap] + spec_lines(chars@.skip(next_i)) =~= old_lines + (
            seq![line_snap] + spec_lines(chars@.skip(next_i))));
        }
        if j < n {
            i = j + 1;
        } else {
            i = n;
        }
    }
    proof {
        assert(chars@.skip(n as int).len() == 0);
        assert(spec_lines(chars@.skip(n as int)) =~= Seq::<Seq<char>>::empty());
        assert(lines.deep_view() + Seq::<Seq<char>>::empty() =~= lines.deep_view());
    }
    lines
}

/// Removes a trailing carriage return.
fn strip_cr_vec(l: &Vec<char>) -> (r: Vec<char>)
    ensures
        r@ == strip_cr(l@),
{
    let n = l.len();
    let m = if n > 0 && l[n - 1] == '\r' {
        n - 1
    } else {
        n
    };
    let mut v: Vec<char> = Vec::new();
    let mut k: usize = 0;
    while k < m
        invariant
            k <= m <= n == l@.len(),
            v@ == l@.subrange(0, k as int),
        decreases m - k,
    {
        v.push(l[k]);
        proof {
            assert(l@.subrange(0, k as int).push(l@[k as int]) =~= l@.subrange(0, k + 1));
        }
        k = k + 1;
    }
    proof {
        if n > 0 && l@.last() == '\r' {
            assert(l@.subrange(0, m as int) =~= l@.drop_last());
        } else {
            assert(l@.subrange(0, m as int) =~= l@);
        }
    }
    v
}

impl Program {
    /// Loads a program from its line-oriented text: one instruction per
    /// non-empty line.  The first bad line yields `MalformedInstruction`;
    /// malformed text never reaches the machine.
    pub fn parse_program(source: &str, mem_size: usize) -> (r: Result<Program, SuperrError>)
        ensures
            match spec_parse_program(source@, mem_size as nat) {
                Some(p) => r matches Ok(prog) && prog@ == p,
                None => r matches Err(e) && e is MalformedInstruction,
            },
    {
        let chars = str_to_chars(source);
        let lines = split_lines(&chars);
        let ghost ldv = spec_lines(source@);
        proof {
            assert(lines.deep_view() == ldv);
            assert(forall|x: int|
                0 <= x < lines@.len() ==> #[trigger] lines@[x]@ == lines.deep_view()[x]);
        }
        let n = lines.len();
        let mut prog: Vec<Instruction> = Vec::new();
        proof {
            assert(ldv.skip(0) =~= ldv);
            let whole = spec_parse_lines(ldv, mem_size as nat);
            if whole is Some {
                assert(prog@ + whole->0 =~= whole->0);
            }
        }
        let mut i: usize = 0;
        while i < n
            invariant
                i <= n == ldv.len(),
                ldv == spec_lines(source@),
                forall|x: int| 0 <= x < lines@.len() ==> #[trigger] lines@[x]@ == ldv[x],
                lines@.len() == n,
                match spec_parse_lines(ldv.skip(i as int), mem_size as nat) {
                    Some(rest) => spec_parse_lines(ldv, mem_size as nat) == Some(prog@ + rest),
                    None => spec_parse_lines(ldv, mem_size as nat) is None,
                },
            decreases n - i,
        {
            let ghost rem = ldv.skip(i as int);
            proof {
                assert(rem[0] == ldv[i as int]);
                assert(rem.drop_first() =~= ldv.skip(i + 1));
            }
            let stripped = strip_cr_vec(&lines[i]);
            if stripped.len() == 0 {
                i = i + 1;
                continue ;
            }
            match crate::instruction::parse_instruction_chars(&stripped, mem_size) {
                Ok(ins) => {
                    proof {
                        let inner = spec_parse_lines(ldv.skip(i + 1), mem_size as nat);
                        if inner is Some {
                            let rest2 = inner->0;
                            assert(spec_parse_lines(rem, mem_size as nat) == Some(
                                seq![ins] + rest2,
                            ));
                            assert(prog@.push(ins) + rest2 =~= prog@ + (seq![ins] + rest2));
                        }
                    }
                    prog.push(ins);
                    i = i + 1;
                },
                Err(e) => {
                    proof {
                        assert(spec_parse_lines(rem, mem_size as nat) is None);
                    }
                    return Err(e);
                },
            }
        }
        proof {
            assert(ldv.skip(n as int).len() == 0);
            assert(spec_parse_lines(ldv.skip(n as int), mem_size as nat) == Some(
                Seq::<Instruction>::empty(),
            ));
            assert(prog@ + Seq::<Instruction>::empty() =~= prog@);
        }
        Ok(Program { instructions: prog })
    }

    /// The canonical text of the whole program: each instruction's line
    /// followed by a line break.
    pub fn to_text(&self) -> (r: String)
        ensures
            r@ == spec_program_text(self@),
    {
        let mut buf: Vec<char> = Vec::new();
        let n = self.instructions.len();
        let mut i: usize = 0;
        while i < n
            invariant
                i <= n == self@.len(),
                buf@ == spec_program_text(self@.take(i as int)),
            decreases n - i,
        {
            let line = self.instructions[i].to_text();
            let line_chars = str_to_chars(line.as_str());
            proof {
                lemma_program_text_push(self@.take(i as int), self@[i as int]);
                assert(self@.take(i as int).push(self@[i as int]) =~= self@.take(i + 1));
            }
            append_chars(&mut buf, &line_chars);
            buf.push('\n');
            i = i + 1;
        }
        proof {
            assert(self@.take(n as int) =~= self@);
        }
        chars_to_string(&buf)
    }
}

/// The canonical program text: one line per instruction.
pub open spec fn spec_program_text(p: Seq<Instruction>) -> Seq<char>
    decreases p.len(),
{
    if p.len() == 0 {
        Seq::empty()
    } else {
        spec_program_text(p.drop_last()) + spec_instr_text(p.last()) + seq!['\n']
    }
}

/// Appending an instruction appends its line.
pub proof fn lemma_program_text_push(p: Seq<Instruction>, i: Instruction)
    ensures
        spec_program_text(p.push(i)) == spec_program_text(p) + spec_instr_text(i) + seq!['\n'],
{
    assert(p.push(i).drop_last() =~= p);
    assert(p.push(i).last() == i);
}

/// No line break or carriage return occurs in `s`.
pub open spec fn no_line_breaks(s: Seq<char>) -> bool {
    forall|i: int| 0 <= i < s.len() ==> #[trigger] s[i] != '\n' && s[i] != '\r'
}

/// Concatenation keeps text free of line breaks.
proof fn lemma_no_breaks_concat(a: Seq<char>, b: Seq<char>)
    requires
        no_line_breaks(a),
        no_line_breaks(b),
    ensures
        no_line_breaks(a + b),
{
    assert forall|i: int| 0 <= i < (a + b).len() implies #[trigger] (a + b)[i] != '\n' && (a
        + b)[i] != '\r' by {
        if i < a.len() {
            assert((a + b)[i] == a[i]);
        } else {
            assert((a + b)[i] == b[i - a.len()]);
        }
    }
}

/// Decimal digits hold no line breaks.
proof fn lemma_digits_no_breaks(n: nat)
    ensures
        no_line_breaks(crate::text::dec_digits(n)),
{
    crate::text::lemma_dec_digits_val(n);
    let d = crate::text::dec_digits(n);
    assert forall|i: int| 0 <= i < d.len() implies #[trigger] d[i] != '\n' && d[i] != '\r' by {
        assert(crate::text::is_dec_digit(d[i]));
    }
}

/// An instruction's line is non-empty and free of line breaks.
proof fn lemma_instr_text_line(i: Instruction)
    ensures
        spec_instr_text(i).len() > 0,
        no_line_breaks(spec_instr_text(i)),
{
    match i {
        Instruction::Load(v) => {
            lemma_digits_no_breaks(v as nat);
            lemma_no_breaks_concat(seq!['L', 'O', 'A', 'D', ' '], crate::text::dec_digits(v as nat));
        },
        Instruction::Swap(a, b) => {
            lemma_two_operand_text(seq!['S', 'W', 'A', 'P', ' '], a as nat, b as nat);
        },
        Instruction::XOR(a, b) => {
            lemma_two_operand_text(seq!['X', 'O', 'R', ' '], a as nat, b as nat);
        },
        Instruction::Inc(a) => {
            lemma_digits_no_breaks(a as nat);
            lemma_no_breaks_concat(seq!['I', 'N', 'C', ' '], crate::text::dec_digits(a as nat));
        },
        Instruction::Decr(a) => {
            lemma_digits_no_breaks(a as nat);
            lemma_no_breaks_concat(seq!['D', 'E', 'C', 'R', ' '], crate::text::dec_digits(a as nat));
        },
        Instruction::Add(a, b) => {
            lemma_two_operand_text(seq!['A', 'D', 'D', ' '], a as nat, b as nat);
        },
        Instruction::Sub(a, b) => {
            lemma_two_operand_text(seq!['S', 'U', 'B', ' '], a as nat, b as nat);
        },
        Instruction::Put(a) => {
            lemma_digits_no_breaks(a as nat);
            lemma_no_breaks_concat(seq!['P', 'U', 'T', ' '], crate::text::dec_digits(a as nat));
        },
        Instruction::Jmp(t) => {
            lemma_digits_no_breaks(t as nat);
            lemma_no_breaks_concat(seq!['J', 'M', 'P', ' '], crate::text::dec_digits(t as nat));
        },
    }
}

/// A mnemonic with two decimal operands holds no line breaks.
proof fn lemma_two_operand_text(mn: Seq<char>, a: nat, b: nat)
    requires
        no_line_breaks(mn),
    ensures
        no_line_breaks(mn + crate::text::dec_digits(a) + seq![' '] + crate::text::dec_digits(b)),
{
    lemma_digits_no_breaks(a);
    lemma_digits_no_breaks(b);
    lemma_no_breaks_concat(mn, crate::text::dec_digits(a));
    lemma_no_breaks_concat(mn + crate::text::dec_digits(a), seq![' ']);
    lemma_no_breaks_concat(mn + crate::text::dec_digits(a) + seq![' '], crate::text::dec_digits(b));
}

/// A line without breaks followed by a break scans as exactly itself.
proof fn lemma_line_len_concat(w: Seq<char>, rest: Seq<char>)
    requires
        no_line_breaks(w),
        rest.len() == 0 || rest[0] == '\n',
    ensures
        line_len(w + rest) == w.len(),
    decreases w.len(),
{
    if w.len() == 0 {
        assert(w + rest =~= rest);
    } else {
        assert((w + rest)[0] == w[0]);
        assert((w + rest).drop_first() =~= w.drop_first() + rest);
        assert(no_line_breaks(w.drop_first())) by {
            assert(forall|i: int|
                0 <= i < w.drop_first().len() ==> #[trigger] w.drop_first()[i] == w[i + 1]);
        }
        lemma_line_len_concat(w.drop_first(), rest);
    }
}

/// A leading break-free line becomes the first line of the split.
proof fn lemma_lines_head(w: Seq<char>, rest: Seq<char>)
    requires
        w.len() > 0,
        no_line_breaks(w),
    ensures
        spec_lines(w + seq!['\n'] + rest) == seq![w] + spec_lines(rest),
{
    let s = w + seq!['\n'] + rest;
    assert(s =~= w + (seq!['\n'] + rest));
    assert((seq!['\n'] + rest)[0] == '\n');
    lemma_line_len_concat(w, seq!['\n'] + rest);
    assert(line_len(s) == w.len());
    assert(line_len(s) < s.len());
    assert(s.take(w.len() as int) =~= w);
    assert(s.skip(w.len() as int + 1) =~= rest);
}

/// The program text decomposes from the front: the first instruction's
/// line, then the text of the rest.
proof fn lemma_program_text_first(p: Seq<Instruction>)
    requires
        p.len() > 0,
    ensures
        spec_program_text(p) == spec_instr_text(p[0]) + seq!['\n'] + spec_program_text(
            p.drop_first(),
        ),
    decreases p.len(),
{
    if p.len() == 1 {
        assert(p.drop_last() =~= Seq::<Instruction>::empty());
        assert(p.drop_first() =~= Seq::<Instruction>::empty());
        assert(p.last() == p[0]);
        assert(spec_program_text(Seq::<Instruction>::empty()) == Seq::<char>::empty());
        assert(spec_program_text(p) =~= spec_instr_text(p[0]) + seq!['\n']
            + spec_program_text(p.drop_first()));
    } else {
        let q = p.drop_last();
        lemma_program_text_first(q);
        assert(q[0] == p[0]);
        assert(q.drop_first().push(p.last()) =~= p.drop_first());
        lemma_program_text_push(q.drop_first(), p.last());
        assert(spec_program_text(p) == (spec_instr_text(p[0]) + seq!['\n']
            + spec_program_text(q.drop_first())) + spec_instr_text(p.last()) + seq!['\n']);
        assert((spec_instr_text(p[0]) + seq!['\n'] + spec_program_text(q.drop_first()))
            + spec_instr_text(p.last()) + seq!['\n'] =~= spec_instr_text(p[0]) + seq!['\n'] + (
        spec_program_text(q.drop_first()) + spec_instr_text(p.last()) + seq!['\n']));
    }
}

/// Printing a whole well-formed program and loading the text back gives
/// the program again: the line-oriented form round-trips losslessly.
pub proof fn lemma_program_text_round_trip(p: Seq<Instruction>, mem_size: nat)
    requires
        forall|i: int| 0 <= i < p.len() ==> (#[trigger] p[i]).wf(mem_size),
        forall|i: int| 0 <= i < p.len() ==> (#[trigger] p[i]).encodable(),
        mem_size <= 0x1000,
    ensures
        spec_parse_program(spec_program_text(p), mem_size) == Some(p),
    decreases p.len(),
{
    if p.len() == 0 {
        assert(spec_lines(Seq::<char>::empty()) == Seq::<Seq<char>>::empty());
    } else {
        let head = spec_instr_text(p[0]);
        lemma_instr_text_line(p[0]);
        lemma_program_text_first(p);
        lemma_lines_head(head, spec_program_text(p.drop_first()));
        let rest_lines = spec_lines(spec_program_text(p.drop_first()));
        assert(spec_lines(spec_program_text(p)) == seq![head] + rest_lines);
        assert((seq![head] + rest_lines)[0] == head);
        assert((seq![head] + rest_lines).drop_first() =~= rest_lines);
        // The head line carries no carriage return, so it parses as the
        // first instruction.
        assert(strip_cr(head) == head);
        crate::instruction::lemma_text_round_trip(p[0], mem_size);
        assert(forall|i: int|
            0 <= i < p.drop_first().len() ==> p.drop_first()[i] == p[i + 1]);
        lemma_program_text_round_trip(p.drop_first(), mem_size);
        assert(spec_parse_lines(spec_lines(spec_program_text(p)), mem_size) == Some(
            seq![p[0]] + p.drop_first(),
        ));
        assert(seq![p[0]] + p.drop_first() =~= p);
    }
}

/// Packing a whole program and unpacking the bytes gives the program back.
pub proof fn lemma_program_bytes_round_trip(p: Seq<Instruction>, mem_size: nat)
    requires
        forall|i: int| 0 <= i < p.len() ==> (#[trigger] p[i]).wf(mem_size),
        forall|i: int| 0 <= i < p.len() ==> (#[trigger] p[i]).encodable(),
        p.len() <= u32::MAX,
        mem_size <= 0x1000,
    ensures
        spec_decode_program(spec_program_bytes(p), mem_size) == Some(p),
{
    let s = spec_program_bytes(p);
    lemma_be32_round(p.len() as u32);
    assert(s[0] == be32(p.len() as u32)[0]);
    assert(s[1] == be32(p.len() as u32)[1]);
    assert(s[2] == be32(p.len() as u32)[2]);
    assert(s[3] == be32(p.len() as u32)[3]);
    assert(s.skip(4) =~= words_bytes(p));
    lemma_decode_words_round(p, mem_size);
}

/// Unpacking the packed words of a program gives the instructions back.
proof fn lemma_decode_words_round(p: Seq<Instruction>, mem_size: nat)
    requires
        forall|i: int| 0 <= i < p.len() ==> (#[trigger] p[i]).wf(mem_size),
        forall|i: int| 0 <= i < p.len() ==> (#[trigger] p[i]).encodable(),
        mem_size <= 0x1000,
    ensures
        spec_decode_words(words_bytes(p), p.len(), mem_size) == Some(p),
    decreases p.len(),
{
    if p.len() == 0 {
        assert(words_bytes(p).len() == 0);
    } else {
        let head = be32(spec_encode_word(p[0]));
        let tail = words_bytes(p.drop_first());
        let s = words_bytes(p);
        assert(s == head + tail);
        assert(s.len() >= 4);
        assert(s[0] == head[0] && s[1] == head[1] && s[2] == head[2] && s[3] == head[3]);
        lemma_be32_round(spec_encode_word(p[0]));
        crate::instruction::lemma_word_round_trip(p[0], mem_size);
        assert(spec_decode_word(read_be32(s[0], s[1], s[2], s[3]), mem_size) == Some(p[0]));
        assert(s.skip(4) =~= tail);
        lemma_decode_words_round(p.drop_first(), mem_size);
        assert(seq![p[0]] + p.drop_first() =~= p);
    }
}

} // verus!
