//! Tokenizing of UTAU resampler flag strings such as `g-10B60A120`.
//!
//! Every ASCII letter starts a flag; it takes an optional sign and then the
//! run of digits and dots that follows it as its value text. Other characters
//! are skipped. Turning the value text into a number is left to the caller.
use vstd::prelude::*;

use crate::text::str_chars;

verus! {

/// One flag letter and the text of its value (possibly empty).
#[derive(Clone, Debug)]
pub struct FlagToken {
    pub letter: char,
    pub value: Vec<char>,
}

/// The rendering parameter a flag letter sets.
#[derive(Clone, Copy, PartialEq, Eq, Debug)]
pub enum FlagField {
    G,
    B,
    M,
    T,
    A,
    P,
    C,
    H,
    D,
    F,
}

/// Whether `c` is an ASCII letter.
pub open spec fn is_ascii_alpha(c: char) -> bool {
    ('a' <= c && c <= 'z') || ('A' <= c && c <= 'Z')
}

/// Whether `c` can continue a flag value: a digit or a dot.
pub open spec fn is_value_char(c: char) -> bool {
    ('0' <= c && c <= '9') || c == '.'
}

/// First index at or after `k` whose character is not a digit or dot, or `s.len()`.
pub open spec fn value_end(s: Seq<char>, k: int) -> int
    decreases s.len() - k,
{
    if k >= s.len() {
        s.len() as int
    } else if is_value_char(s[k]) {
        value_end(s, k + 1)
    } else {
        k
    }
}

/// Where the value text of a flag whose letter is at `i` begins its digits:
/// after an optional sign.
pub open spec fn sign_end(s: Seq<char>, i: int) -> int {
    if i + 1 < s.len() && (s[i + 1] == '+' || s[i + 1] == '-') {
        i + 2
    } else {
        i + 1
    }
}

pub proof fn lemma_value_end_bounds(s: Seq<char>, k: int)
    requires
        0 <= k <= s.len(),
    ensures
        k <= value_end(s, k) <= s.len(),
    decreases s.len() - k,
{
    if k < s.len() && is_value_char(s[k]) {
        lemma_value_end_bounds(s, k + 1);
    }
}

/// The `(letter, value text)` pairs of `s` from position `i` on.
pub open spec fn flag_tokens_from(s: Seq<char>, i: int) -> Seq<(char, Seq<char>)>
    decreases s.len() - i,
{
    if i < 0 || i >= s.len() {
        Seq::empty()
    } else if is_ascii_alpha(s[i]) {
        let e = value_end(s, sign_end(s, i));
        proof {
            lemma_value_end_bounds(s, sign_end(s, i));
        }
        seq![(s[i], s.subrange(i + 1, e))] + flag_tokens_from(s, e)
    } else {
        flag_tokens_from(s, i + 1)
    }
}

/// Splits a flag string into its flags, in order.
pub fn scan_flags(s: &str) -> (r: Vec<FlagToken>)
    ensures
        r@.map_values(|t: FlagToken| (t.letter, t.value@)) == flag_tokens_from(s@, 0),
{
    let chars = str_chars(s);
    let n = chars.len();
    let mut out: Vec<FlagToken> = Vec::new();
    let mut i: usize = 0;
    while i < n
        invariant
            n == chars@.len(),
            chars@ == s@,
            i <= n,
            out@.map_values(|t: FlagToken| (t.letter, t.value@)) + flag_tokens_from(chars@, i as int)
                == flag_tokens_from(chars@, 0),
        decreases n - i,
    {
        let c = chars[i];
        if ('a' <= c && c <= 'z') || ('A' <= c && c <= 'Z') {
            let mut j = i + 1;
            if j < n && (chars[j] == '+' || chars[j] == '-') {
                j = j + 1;
            }
            assert(j == sign_end(chars@, i as int));
            while j < n && (('0' <= chars[j] && chars[j] <= '9') || chars[j] == '.')
                invariant
                    i + 1 <= j <= n,
                    n == chars@.len(),
                    value_end(chars@, j as int) == value_end(chars@, sign_end(chars@, i as int)),
                decreases n - j,
            {
                j = j + 1;
            }
            let mut value: Vec<char> = Vec::new();
            let mut k = i + 1;
            while k < j
                invariant
                    i + 1 <= k <= j <= n,
                    n == chars@.len(),
                    value@ == chars@.subrange(i + 1, k as int),
                decreases j - k,
            {
                value.push(chars[k]);
                k = k + 1;
                proof {
                    assert(value@ =~= chars@.subrange(i + 1, k as int));
                }
            }
            let ghost before = out@;
            out.push(FlagToken { letter: c, value });
            proof {
                let f = |t: FlagToken| (t.letter, t.value@);
                assert(out@.map_values(f) =~= before.map_values(f).push((c, chars@.subrange(
                    i + 1,
                    j as int,
                ))));
                assert(value_end(chars@, j as int) == j);
                assert(before.map_values(f).push((c, chars@.subrange(i + 1, j as int)))
                    + flag_tokens_from(chars@, j as int) =~= before.map_values(f) + flag_tokens_from(
                    chars@,
                    i as int,
                ));
            }
            i = j;
        } else {
            i = i + 1;
        }
    }
    out
}

/// The field a flag letter sets; letters without one are ignored.
pub open spec fn flag_field_of(c: char) -> Option<FlagField> {
    if c == 'g' || c == 'G' {
        Some(FlagField::G)
    } else if c == 'B' || c == 'b' {
        Some(FlagField::B)
    } else if c == 'M' {
        Some(FlagField::M)
    } else if c == 't' || c == 'T' {
        Some(FlagField::T)
    } else if c == 'A' || c == 'a' {
        Some(FlagField::A)
    } else if c == 'P' || c == 'p' || c == 'Y' || c == 'y' {
        Some(FlagField::P)
    } else if c == 'C' || c == 'c' {
        Some(FlagField::C)
    } else if c == 'H' || c == 'h' {
        Some(FlagField::H)
    } else if c == 'D' || c == 'd' {
        Some(FlagField::D)
    } else if c == 'F' || c == 'f' {
        Some(FlagField::F)
    } else {
        None
    }
}

/// The field that the flag letter `c` sets, if any.
pub fn flag_field(c: char) -> (r: Option<FlagField>)
    ensures
        r == flag_field_of(c),
{
    if c == 'g' || c == 'G' {
        Some(FlagField::G)
    } else if c == 'B' || c == 'b' {
        Some(FlagField::B)
    } else if c == 'M' {
        Some(FlagField::M)
    } else if c == 't' || c == 'T' {
        Some(FlagField::T)
    } else if c == 'A' || c == 'a' {
        Some(FlagField::A)
    } else if c == 'P' || c == 'p' || c == 'Y' || c == 'y' {
        Some(FlagField::P)
    } else if c == 'C' || c == 'c' {
        Some(FlagField::C)
    } else if c == 'H' || c == 'h' {
        Some(FlagField::H)
    } else if c == 'D' || c == 'd' {
        Some(FlagField::D)
    } else if c == 'F' || c == 'f' {
        Some(FlagField::F)
    } else {
        None
    }
}

/// Whether the resampler knows the flag letter `c`, in either case.
pub open spec fn is_supported_flag(c: char) -> bool {
    let l = if 'A' <= c && c <= 'Z' {
        ((c as u32) + 32) as char
    } else {
        c
    };
    l == 'g' || l == 'b' || l == 'm' || l == 't' || l == 'a' || l == 'p' || l == 'c' || l == 'h'
        || l == 'd' || l == 'f' || l == 'y'
}

/// The letters of `s` the resampler does not know, in order.
pub open spec fn unknown_letters(s: Seq<char>) -> Seq<char>
    decreases s.len(),
{
    if s.len() == 0 {
        Seq::empty()
    } else if is_ascii_alpha(s.last()) && !is_supported_flag(s.last()) {
        unknown_letters(s.drop_last()).push(s.last())
    } else {
        unknown_letters(s.drop_last())
    }
}

/// The letters in a flag string that no flag uses, to warn about.
pub fn unknown_flag_letters(flags: &str) -> (r: Vec<char>)
    ensures
        r@ == unknown_letters(flags@),
{
    let chars = str_chars(flags);
    let mut out: Vec<char> = Vec::new();
    let mut i: usize = 0;
    while i < chars.len()
        invariant
            i <= chars@.len(),
            out@ == unknown_letters(chars@.take(i as int)),
        decreases chars.len() - i,
    {
        let c = chars[i];
        proof {
            assert(chars@.take(i + 1).drop_last() =~= chars@.take(i as int));
        }
        let is_alpha = ('a' <= c && c <= 'z') || ('A' <= c && c <= 'Z');
        let l = if 'A' <= c && c <= 'Z' {
            ((c as u32) + 32) as u8 as char
        } else {
            c
        };
        let supported = l == 'g' || l == 'b' || l == 'm' || l == 't' || l == 'a' || l == 'p' || l
            == 'c' || l == 'h' || l == 'd' || l == 'f' || l == 'y';
        if is_alpha && !supported {
            out.push(c);
        }
        i = i + 1;
    }
    assert(chars@.take(chars@.len() as int) =~= chars@);
    out
}

} // verus!
