//! Character-level helpers: decimal numbers, whitespace tokenization and
//! conversions between strings and character vectors.

use vstd::prelude::*;

verus! {

/// Token separators of the assembly text format: spaces and tabs.
pub open spec fn is_space(c: char) -> bool {
    c == ' ' || c == '\t'
}

/// Decimal digits.
pub open spec fn is_dec_digit(c: char) -> bool {
    '0' <= c && c <= '9'
}

/// The numeric value of a decimal digit.
pub open spec fn digit_val(c: char) -> nat {
    (c as u32 - 48) as nat
}

/// The digit character for a value below ten.
pub open spec fn digit_char(d: nat) -> char {
    if d == 0 {
        '0'
    } else if d == 1 {
        '1'
    } else if d == 2 {
        '2'
    } else if d == 3 {
        '3'
    } else if d == 4 {
        '4'
    } else if d == 5 {
        '5'
    } else if d == 6 {
        '6'
    } else if d == 7 {
        '7'
    } else if d == 8 {
        '8'
    } else {
        '9'
    }
}

/// The value of a sequence of decimal digits, most significant first.
pub open spec fn dec_val(s: Seq<char>) -> nat
    decreases s.len(),
{
    if s.len() == 0 {
        0
    } else {
        dec_val(s.drop_last()) * 10 + digit_val(s.last())
    }
}

/// Every character of `s` is a decimal digit.
pub open spec fn all_dec_digits(s: Seq<char>) -> bool {
    forall|i: int| 0 <= i < s.len() ==> is_dec_digit(#[trigger] s[i])
}

/// The canonical decimal spelling of `n`: no leading zeros, and `"0"` for 0.
pub open spec fn dec_digits(n: nat) -> Seq<char>
    decreases n,
{
    if n < 10 {
        seq![digit_char(n)]
    } else {
        dec_digits(n / 10).push(digit_char(n % 10))
    }
}

/// What a whole token denotes: its value, provided it is a non-empty,
/// pure-digit word whose value fits in 32 bits.
pub open spec fn spec_parse_dec(s: Seq<char>) -> Option<u32> {
    if s.len() > 0 && all_dec_digits(s) && dec_val(s) <= u32::MAX {
        Some(dec_val(s) as u32)
    } else {
        None
    }
}

/// Appending a digit multiplies the value by ten and adds the digit.
pub proof fn lemma_dec_val_push(s: Seq<char>, c: char)
    ensures
        dec_val(s.push(c)) == dec_val(s) * 10 + digit_val(c),
{
    assert(s.push(c).drop_last() =~= s);
    assert(s.push(c).last() == c);
}

/// A digit sequence is worth at least any of its prefixes.
pub proof fn lemma_dec_val_prefix_le(s: Seq<char>, i: int)
    requires
        0 <= i <= s.len(),
    ensures
        dec_val(s.take(i)) <= dec_val(s),
    decreases s.len() - i,
{
    if i < s.len() {
        lemma_dec_val_push(s.take(i), s[i]);
        assert(s.take(i).push(s[i]) =~= s.take(i + 1));
        assert(dec_val(s.take(i)) <= dec_val(s.take(i + 1)));
        lemma_dec_val_prefix_le(s, i + 1);
        assert(s.take(s.len() as int) =~= s);
    } else {
        assert(s.take(i) =~= s);
    }
}

/// The canonical spelling consists of digits and evaluates back to `n`.
pub proof fn lemma_dec_digits_val(n: nat)
    ensures
        dec_val(dec_digits(n)) == n,
        all_dec_digits(dec_digits(n)),
        dec_digits(n).len() >= 1,
    decreases n,
{
    if n < 10 {
        assert(dec_val(dec_digits(n)) == dec_val(seq![digit_char(n)].drop_last()) * 10 + digit_val(
            seq![digit_char(n)].last(),
        ));
        assert(seq![digit_char(n)].drop_last() =~= Seq::<char>::empty());
    } else {
        lemma_dec_digits_val(n / 10);
        lemma_dec_val_push(dec_digits(n / 10), digit_char(n % 10));
        assert(digit_val(digit_char(n % 10)) == n % 10);
        assert(dec_val(dec_digits(n)) == (n / 10) * 10 + n % 10);
        assert((n / 10) * 10 + n % 10 == n) by (nonlinear_arith);
        assert forall|i: int| 0 <= i < dec_digits(n).len() implies is_dec_digit(
            #[trigger] dec_digits(n)[i],
        ) by {
            if i < dec_digits(n / 10).len() {
                assert(dec_digits(n)[i] == dec_digits(n / 10)[i]);
            }
        }
    }
}

/// Converts one digit value to its character.
pub fn digit_to_char(d: u8) -> (c: char)
    requires
        d < 10,
    ensures
        c == digit_char(d as nat),
{
    match d {
        0 => '0',
        1 => '1',
        2 => '2',
        3 => '3',
        4 => '4',
        5 => '5',
        6 => '6',
        7 => '7',
        8 => '8',
        _ => '9',
    }
}

/// Spells `n` in canonical decimal.
pub fn u64_to_dec(n: u64) -> (r: Vec<char>)
    ensures
        r@ == dec_digits(n as nat),
    decreases n,
{
    if n < 10 {
        let c = digit_to_char(n as u8);
        let v = vec![c];
        proof {
            assert(v@ =~= seq![digit_char(n as nat)]);
        }
        v
    } else {
        let mut v = u64_to_dec(n / 10);
        v.push(digit_to_char((n % 10) as u8));
        v
    }
}

/// Reads a whole token as a decimal number: exactly `spec_parse_dec`.
pub fn parse_dec(s: &Vec<char>) -> (r: Option<u32>)
    ensures
        r == spec_parse_dec(s@),
{
    let n = s.len();
    if n == 0 {
        return None;
    }
    let mut acc: u64 = 0;
    let mut i: usize = 0;
    while i < n
        invariant
            0 < n == s@.len(),
            i <= n,
            all_dec_digits(s@.take(i as int)),
            acc == dec_val(s@.take(i as int)),
            acc <= 0xFFFF_FFFFu64,
        decreases n - i,
    {
        let c = s[i];
        if !('0' <= c && c <= '9') {
            proof {
                assert(!is_dec_digit(s@[i as int]));
            }
            return None;
        }
        let d: u64 = (c as u32 - 48) as u64;
        proof {
            lemma_dec_val_push(s@.take(i as int), s@[i as int]);
            assert(s@.take(i as int).push(s@[i as int]) =~= s@.take(i + 1));
        }
        acc = acc * 10 + d;
        i = i + 1;
        if acc > 0xFFFF_FFFFu64 {
            proof {
                lemma_dec_val_prefix_le(s@, i as int);
            }
            return None;
        }
    }
    proof {
        assert(s@.take(n as int) =~= s@);
    }
    Some(acc as u32)
}

/// Uppercases one ASCII letter; every other character is unchanged.
pub open spec fn char_upper(c: char) -> char {
    if c == 'a' {
        'A'
    } else if c == 'b' {
        'B'
    } else if c == 'c' {
        'C'
    } else if c == 'd' {
        'D'
    } else if c == 'e' {
        'E'
    } else if c == 'f' {
        'F'
    } else if c == 'g' {
        'G'
    } else if c == 'h' {
        'H'
    } else if c == 'i' {
        'I'
    } else if c == 'j' {
        'J'
    } else if c == 'k' {
        'K'
    } else if c == 'l' {
        'L'
    } else if c == 'm' {
        'M'
    } else if c == 'n' {
        'N'
    } else if c == 'o' {
        'O'
    } else if c == 'p' {
        'P'
    } else if c == 'q' {
        'Q'
    } else if c == 'r' {
        'R'
    } else if c == 's' {
        'S'
    } else if c == 't' {
        'T'
    } else if c == 'u' {
        'U'
    } else if c == 'v' {
        'V'
    } else if c == 'w' {
        'W'
    } else if c == 'x' {
        'X'
    } else if c == 'y' {
        'Y'
    } else if c == 'z' {
        'Z'
    } else {
        c
    }
}

/// The ASCII-uppercased image of a word.
pub open spec fn upper_seq(s: Seq<char>) -> Seq<char> {
    s.map_values(|c: char| char_upper(c))
}

/// Uppercases one character, as `char_upper` does.
pub fn char_to_upper(c: char) -> (r: char)
    ensures
        r == char_upper(c),
{
    match c {
        'a' => 'A',
        'b' => 'B',
        'c' => 'C',
        'd' => 'D',
        'e' => 'E',
        'f' => 'F',
        'g' => 'G',
        'h' => 'H',
        'i' => 'I',
        'j' => 'J',
        'k' => 'K',
        'l' => 'L',
        'm' => 'M',
        'n' => 'N',
        'o' => 'O',
        'p' => 'P',
        'q' => 'Q',
        'r' => 'R',
        's' => 'S',
        't' => 'T',
        'u' => 'U',
        'v' => 'V',
        'w' => 'W',
        'x' => 'X',
        'y' => 'Y',
        'z' => 'Z',
        _ => c,
    }
}

/// Length of the maximal non-separator prefix.
pub open spec fn word_len(s: Seq<char>) -> nat
    decreases s.len(),
{
    if s.len() == 0 || is_space(s[0]) {
        0
    } else {
        1 + word_len(s.drop_first())
    }
}

/// `word_len` never runs past the end.
pub proof fn lemma_word_len_le(s: Seq<char>)
    ensures
        word_len(s) <= s.len(),
    decreases s.len(),
{
    if s.len() > 0 && !is_space(s[0]) {
        lemma_word_len_le(s.drop_first());
    }
}

/// The words of `s`: maximal runs of non-separator characters, in order.
pub open spec fn spec_tokens(s: Seq<char>) -> Seq<Seq<char>>
    decreases s.len(),
    via spec_tokens_decreases
{
    if s.len() == 0 {
        Seq::empty()
    } else if is_space(s[0]) {
        spec_tokens(s.drop_first())
    } else {
        let k = word_len(s) as int;
        seq![s.take(k)] + spec_tokens(s.skip(k))
    }
}

#[via_fn]
proof fn spec_tokens_decreases(s: Seq<char>) {
    if s.len() > 0 && !is_space(s[0]) {
        lemma_word_len_le(s);
    }
}

/// A word followed by a separator (or the end) scans as exactly itself.
pub proof fn lemma_word_len_concat(w: Seq<char>, rest: Seq<char>)
    requires
        forall|i: int| 0 <= i < w.len() ==> !is_space(#[trigger] w[i]),
        rest.len() == 0 || is_space(rest[0]),
    ensures
        word_len(w + rest) == w.len(),
    decreases w.len(),
{
    if w.len() == 0 {
        assert(w + rest =~= rest);
    } else {
        assert((w + rest)[0] == w[0]);
        assert((w + rest).drop_first() =~= w.drop_first() + rest);
        lemma_word_len_concat(w.drop_first(), rest);
    }
}

/// A leading non-empty word becomes the first token.
pub proof fn lemma_tokens_word(w: Seq<char>, rest: Seq<char>)
    requires
        w.len() > 0,
        forall|i: int| 0 <= i < w.len() ==> !is_space(#[trigger] w[i]),
        rest.len() == 0 || is_space(rest[0]),
    ensures
        spec_tokens(w + rest) == seq![w] + spec_tokens(rest),
{
    let s = w + rest;
    lemma_word_len_concat(w, rest);
    assert(s[0] == w[0]);
    assert(s.take(w.len() as int) =~= w);
    assert(s.skip(w.len() as int) =~= rest);
}

/// A leading separator contributes no token.
pub proof fn lemma_tokens_space(rest: Seq<char>)
    ensures
        spec_tokens(seq![' '] + rest) == spec_tokens(rest),
{
    assert((seq![' '] + rest)[0] == ' ');
    assert((seq![' '] + rest).drop_first() =~= rest);
}

/// A lone word is its own token list.
pub proof fn lemma_tokens_single(w: Seq<char>)
    requires
        w.len() > 0,
        forall|i: int| 0 <= i < w.len() ==> !is_space(#[trigger] w[i]),
    ensures
        spec_tokens(w) == seq![w],
{
    lemma_tokens_word(w, Seq::empty());
    assert(w + Seq::<char>::empty() =~= w);
    assert(seq![w] + spec_tokens(Seq::<char>::empty()) =~= seq![w]);
}

/// Splits a line into its whitespace-separated words.
#[verifier::loop_isolation(false)]
pub fn tokenize(line: &Vec<char>) -> (r: Vec<Vec<char>>)
    ensures
        r.deep_view() == spec_tokens(line@),
{
    let n = line.len();
    let mut toks: Vec<Vec<char>> = Vec::new();
    proof {
        assert(line@.skip(0) =~= line@);
        assert(toks.deep_view() =~= Seq::<Seq<char>>::empty());
        assert(toks.deep_view() + spec_tokens(line@) =~= spec_tokens(line@));
    }
    let mut i: usize = 0;
    while i < n
        invariant
            i <= n,
            toks.deep_view() + spec_tokens(line@.skip(i as int)) == spec_tokens(line@),
        decreases n - i,
    {
        let c = line[i];
        if c == ' ' || c == '\t' {
            proof {
                assert(line@.skip(i as int).drop_first() =~= line@.skip(i + 1));
            }
            i = i + 1;
        } else {
            // Scan the word that starts here.
            let start = i;
            let mut j = i;
            while j < n && !(line[j as usize] == ' ' || line[j as usize] == '\t')
                invariant
                    start <= j <= n,
                    word_len(line@.skip(start as int)) == word_len(line@.skip(j as int)) + (j
                        - start),
                decreases n - j,
            {
                proof {
                    assert(line@.skip(j as int)[0] == line@[j as int]);
                    assert(line@.skip(j as int).drop_first() =~= line@.skip(j + 1));
                }
                j = j + 1;
            }
            proof {
                if j < n {
                    assert(line@.skip(j as int)[0] == line@[j as int]);
                } else {
                    assert(line@.skip(j as int).len() == 0);
                }
                assert(word_len(line@.skip(j as int)) == 0);
                assert(word_len(line@.skip(start as int)) == j - start);
            }
            let mut word: Vec<char> = Vec::new();
            let mut k = start;
            while k < j
                invariant
                    start <= k <= j <= n,
                    word@ == line@.subrange(start as int, k as int),
                decreases j - k,
            {
                word.push(line[k]);
                proof {
                    assert(line@.subrange(start as int, k as int).push(line@[k as int])
                        =~= line@.subrange(start as int, k + 1));
                }
                k = k + 1;
            }
            proof {
                let rest = line@.skip(start as int);
                assert(rest[0] == line@[start as int]);
                assert(!is_space(rest[0]));
                assert(rest.take((j - start) as int) =~= line@.subrange(start as int, j as int));
                assert(rest.skip((j - start) as int) =~= line@.skip(j as int));
                assert(spec_tokens(rest) == seq![word@] + spec_tokens(line@.skip(j as int)));
            }
            let ghost old_toks = toks.deep_view();
            let ghost old_vecs = toks@;
            toks.push(word);
            proof {
                let dv = toks.deep_view();
                assert(toks@ == old_vecs.push(word));
                assert forall|x: int| 0 <= x < dv.len() implies dv[x] == old_toks.push(word@)[x] by {
                    if x < old_toks.len() {
                        assert(toks@[x] == old_vecs[x]);
                        assert(old_toks[x] == old_vecs[x].deep_view());
                    }
                }
                assert(dv =~= old_toks.push(word@));
                assert(old_toks.push(word@) =~= old_toks + seq![word@]);
                assert(old_toks + seq![word@] + spec_tokens(line@.skip(j as int)) =~= old_toks + (
                seq![word@] + spec_tokens(line@.skip(j as int))));
            }
            i = j;
        }
    }
    proof {
        assert(line@.skip(n as int).len() == 0);
        assert(spec_tokens(line@.skip(n as int)) =~= Seq::<Seq<char>>::empty());
        assert(toks.deep_view() + Seq::<Seq<char>>::empty() =~= toks.deep_view());
    }
    toks
}

/// Compares two string slices character by character.
pub fn str_eq(a: &str, b: &str) -> (r: bool)
    ensures
        r == (a@ == b@),
{
    let na = a.unicode_len();
    let nb = b.unicode_len();
    if na != nb {
        return false;
    }
    let mut i: usize = 0;
    while i < na
        invariant
            i <= na,
            na == a@.len() == b@.len(),
            a@.take(i as int) == b@.take(i as int),
        decreases na - i,
    {
        if a.get_char(i) != b.get_char(i) {
            proof {
                assert(a@[i as int] != b@[i as int]);
            }
            return false;
        }
        proof {
            assert(a@.take(i as int).push(a@[i as int]) =~= a@.take(i + 1));
            assert(b@.take(i as int).push(b@[i as int]) =~= b@.take(i + 1));
        }
        i = i + 1;
    }
    proof {
        assert(a@.take(na as int) =~= a@);
        assert(b@.take(na as int) =~= b@);
    }
    true
}

/// Collects the characters of a string slice.
pub fn str_to_chars(s: &str) -> (r: Vec<char>)
    ensures
        r@ == s@,
{
    let n = s.unicode_len();
    let mut v: Vec<char> = Vec::new();
    let mut i: usize = 0;
    while i < n
        invariant
            i <= n,
            n == s@.len(),
            v@ == s@.take(i as int),
        decreases n - i,
    {
        let c = s.get_char(i);
        v.push(c);
        proof {
            assert(s@.take(i as int).push(s@[i as int]) =~= s@.take(i + 1));
        }
        i = i + 1;
    }
    proof {
        assert(s@.take(n as int) =~= s@);
    }
    v
}

/// Relies on `String::push`: appends exactly one character to the string.
#[verifier::external_body]
pub fn push_char(s: &mut String, c: char)
    ensures
        final(s)@ == old(s)@.push(c),
{
    s.push(c);
}

/// Builds a string from a character vector.
pub fn chars_to_string(v: &Vec<char>) -> (s: String)
    ensures
        s@ == v@,
{
    let mut s = String::new();
    let n = v.len();
    let mut i: usize = 0;
    while i < n
        invariant
            i <= n,
            n == v@.len(),
            s@ == v@.take(i as int),
        decreases n - i,
    {
        push_char(&mut s, v[i]);
        proof {
            assert(v@.take(i as int).push(v@[i as int]) =~= v@.take(i + 1));
        }
        i = i + 1;
    }
    proof {
        assert(v@.take(n as int) =~= v@);
    }
    s
}

/// Appends all characters of `src` to `dst`.
pub fn append_chars(dst: &mut Vec<char>, src: &Vec<char>)
    ensures
        final(dst)@ == old(dst)@ + src@,
{
    let n = src.len();
    let mut i: usize = 0;
    while i < n
        invariant
            i <= n,
            n == src@.len(),
            dst@ == old(dst)@ + src@.take(i as int),
        decreases n - i,
    {
        dst.push(src[i]);
        proof {
            assert((old(dst)@ + src@.take(i as int)).push(src@[i as int]) =~= old(dst)@ + src@.take(
                i + 1,
            ));
        }
        i = i + 1;
    }
    proof {
        assert(old(dst)@ + src@.take(n as int) =~= old(dst)@ + src@);
    }
}

} // verus!
